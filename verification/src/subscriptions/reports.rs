//! What is told of a disclosed report.

use vstd::prelude::*;
use vstd::string::StringExecFns;
use crate::models::embed_colors::TRANSPARENT;
use crate::models::{ReportChange, ReportDataView};
use crate::subscriptions::{page_link, push_page_link, Notification, NotificationField};
use crate::text::{decimal, push_integer};

verus! {

/// A text, or another in its place where there is none.
pub open spec fn text_or(text: Option<Seq<char>>, other: Seq<char>) -> Seq<char> {
    match text {
        Some(text) => text,
        None => other,
    }
}

/// Who reported: the link to the reporter's page, with a remark where the
/// report was written together with others.
pub open spec fn reporter_text(report: ReportDataView) -> Seq<char> {
    if report.collaboration {
        page_link(report.user_name) + " (+ unknown collaborator)"@
    } else {
        page_link(report.user_name)
    }
}

/// What was awarded: the amount and the currency, or that it is hidden.
pub open spec fn bounty_text(report: ReportDataView) -> Seq<char> {
    if report.awarded_amount < 0 {
        "hidden"@
    } else {
        decimal(report.awarded_amount) + " "@ + report.currency
    }
}

/// The named values of a notification about `report`, as pairs of name and
/// value: the reporter, the summary where there is one, the severity and the
/// bounty.
pub open spec fn report_fields(report: ReportDataView) -> Seq<(Seq<char>, Seq<char>, bool)> {
    let reporter = seq![("Reporter"@, reporter_text(report), false)];
    let summary = match report.summary {
        Some(text) => seq![("Summary"@, text, false)],
        None => Seq::empty(),
    };
    reporter + summary + seq![
        ("Severity"@, text_or(report.severity, "unknown"@), true),
        ("Bounty Award"@, bounty_text(report), true),
    ]
}

/// The named values of a notification as mathematical values.
pub open spec fn fields_of(notification: Notification) -> Seq<(Seq<char>, Seq<char>, bool)> {
    Seq::new(
        notification.fields@.len(),
        |i: int|
            (
                notification.fields@[i].name@,
                notification.fields@[i].value@,
                notification.fields@[i].inline,
            ),
    )
}

fn field(name: &str, value: String, inline: bool) -> (r: NotificationField)
    ensures
        r.name@ == name@,
        r.value == value,
        r.inline == inline,
{
    NotificationField { name: String::from_str(name), value, inline }
}

fn cloned_or(text: &Option<String>, other: &str) -> (r: String)
    ensures
        r@ == text_or(text.deep_view(), other@),
{
    match text {
        Some(text) => text.clone(),
        None => String::from_str(other),
    }
}

/// Builds what is told of a change of the list of reports.
///
/// Something is told exactly where the side after is disclosed: the report's
/// title and address, each with a stand-in where it is missing, and the
/// named values of `report_fields`.
pub fn build_embed_data(change: &ReportChange) -> (r: Option<Notification>)
    ensures
        r is Some <==> change.after.disclosed,
        r matches Some(notification) ==> {
            &&& notification.title.deep_view() == Some(
                text_or(change.after@.title, "(unknown title)"@),
            )
            &&& notification.url.deep_view() == Some(
                text_or(change.after@.url, "https://hackerone.com/???"@),
            )
            &&& notification.description is None
            &&& notification.color == TRANSPARENT
            &&& notification.footer is None
            &&& fields_of(notification) == report_fields(change.after@)
        },
{
    let new = &change.after;
    if !new.disclosed {
        return None;
    }
    let mut reporter = String::new();
    push_page_link(&mut reporter, new.user_name.as_str());
    if new.collaboration {
        reporter.append(" (+ unknown collaborator)");
    }
    assert(reporter@ =~= reporter_text(new@));
    let bounty = if new.awarded_amount < 0 {
        String::from_str("hidden")
    } else {
        let mut text = String::new();
        push_integer(&mut text, new.awarded_amount);
        text.append(" ");
        text.append(new.currency.as_str());
        assert(text@ =~= bounty_text(new@));
        text
    };
    let mut fields: Vec<NotificationField> = Vec::new();
    fields.push(field("Reporter", reporter, false));
    match &new.summary {
        Some(summary) => {
            fields.push(field("Summary", summary.clone(), false));
        },
        None => {},
    }
    fields.push(field("Severity", cloned_or(&new.severity, "unknown"), true));
    fields.push(field("Bounty Award", bounty, true));
    let notification = Notification {
        title: Some(cloned_or(&new.title, "(unknown title)")),
        url: Some(cloned_or(&new.url, "https://hackerone.com/???")),
        description: None,
        color: TRANSPARENT,
        fields,
        footer: None,
    };
    assert(fields_of(notification) =~= report_fields(new@));
    Some(notification)
}

} // verus!
