//! The consumer's side of a feed: what is told of each change.

use vstd::prelude::*;

pub mod informative_reports;
pub mod reports;
pub mod reputation;
pub mod session;

verus! {

/// One named value of a notification.
#[derive(Debug)]
pub struct NotificationField {
    pub name: String,
    pub value: String,
    pub inline: bool,
}

/// A notification as plain values, ready to be handed to the delivery.
#[derive(Debug)]
pub struct Notification {
    pub title: Option<String>,
    pub url: Option<String>,
    pub description: Option<String>,
    pub color: u32,
    pub fields: Vec<NotificationField>,
    pub footer: Option<String>,
}

/// What a notification says in words and colour: its description, the empty
/// text where it has none, its colour and its footer.
pub struct NotificationView {
    pub description: Seq<char>,
    pub color: u32,
    pub footer: Option<Seq<char>>,
}

impl View for Notification {
    type V = NotificationView;

    open spec fn view(&self) -> NotificationView {
        NotificationView {
            description: match self.description {
                Some(text) => text@,
                None => Seq::empty(),
            },
            color: self.color,
            footer: self.footer.deep_view(),
        }
    }
}

/// The link to the page of a user or a programme, labelled with its name.
pub open spec fn page_link(name: Seq<char>) -> Seq<char> {
    "[**``"@ + name + "``**](https://hackerone.com/"@ + name + ")"@
}

/// Appends the link to the page of `name`.
pub fn push_page_link(out: &mut String, name: &str)
    ensures
        final(out)@ == old(out)@ + page_link(name@),
{
    out.append("[**``");
    out.append(name);
    out.append("``**](https://hackerone.com/");
    out.append(name);
    out.append(")");
    assert(out@ =~= old(out)@ + page_link(name@));
}

} // verus!
