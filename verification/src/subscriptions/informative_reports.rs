//! What is told of reports that a programme closed without effect.

use vstd::prelude::*;
use vstd::string::StringExecFns;
use crate::models::embed_colors::INFORMAL;
use crate::models::UserInvalidReportChange;
use crate::subscriptions::{page_link, push_page_link, Notification};
use crate::text::{decimal_digits, decimal, push_integer, push_natural};

verus! {

/// How many reports were closed: of a single participant the number, of
/// several participants only that there are several.
pub open spec fn count_text(changes: Seq<UserInvalidReportChange>) -> Seq<char> {
    if changes.len() == 1 {
        if changes[0].invalid_reports == 1 {
            "a report"@
        } else {
            decimal(changes[0].invalid_reports as int) + " reports"@
        }
    } else {
        "several reports"@
    }
}

/// The links to the first three participants, separated by commas.
pub open spec fn first_three(changes: Seq<UserInvalidReportChange>) -> Seq<char> {
    page_link(changes[0].user_name@) + ", "@ + page_link(changes[1].user_name@) + ", "@
        + page_link(changes[2].user_name@)
}

/// Whose reports were closed: a single participant; of five the first
/// three and the fifth; of more the first three and the number of the
/// others.
pub open spec fn users_text(changes: Seq<UserInvalidReportChange>) -> Seq<char> {
    if changes.len() == 1 {
        page_link(changes[0].user_name@)
    } else if changes.len() <= 5 {
        first_three(changes) + " and "@ + page_link(changes[4].user_name@)
    } else {
        first_three(changes) + " and "@ + decimal_digits((changes.len() - 3) as nat)
            + " other users"@
    }
}

/// The text of the notification.
pub open spec fn closed_text(changes: Seq<UserInvalidReportChange>, team_handle: Seq<char>) -> Seq<
    char,
> {
    page_link(team_handle) + " closed "@ + count_text(changes) + " from "@ + users_text(changes)
        + " as Informative"@
}

/// Builds what is told of the reports that `team_handle` closed without
/// effect. It is made for the changes of one participant, or of at least
/// five.
pub fn build_embed_data(changes: &Vec<UserInvalidReportChange>, team_handle: &str) -> (r:
    Notification)
    requires
        changes@.len() == 1 || changes@.len() >= 5,
    ensures
        r.description.deep_view() == Some(closed_text(changes@, team_handle@)),
        r.color == INFORMAL,
        r.title is None,
        r.url is None,
        r.footer is None,
        r.fields@.len() == 0,
{
    let mut text = String::new();
    push_page_link(&mut text, team_handle);
    text.append(" closed ");
    if changes.len() == 1 {
        if changes[0].invalid_reports == 1 {
            text.append("a report");
        } else {
            push_integer(&mut text, changes[0].invalid_reports);
            text.append(" reports");
        }
    } else {
        text.append("several reports");
    }
    text.append(" from ");
    if changes.len() == 1 {
        push_page_link(&mut text, changes[0].user_name.as_str());
    } else {
        push_page_link(&mut text, changes[0].user_name.as_str());
        text.append(", ");
        push_page_link(&mut text, changes[1].user_name.as_str());
        text.append(", ");
        push_page_link(&mut text, changes[2].user_name.as_str());
        text.append(" and ");
        if changes.len() <= 5 {
            push_page_link(&mut text, changes[4].user_name.as_str());
        } else {
            push_natural(&mut text, (changes.len() - 3) as u64);
            text.append(" other users");
        }
    }
    text.append(" as Informative");
    assert(text@ =~= closed_text(changes@, team_handle@));
    Notification {
        title: None,
        url: None,
        description: Some(text),
        color: INFORMAL,
        fields: Vec::new(),
        footer: None,
    }
}

} // verus!
