//! The records that travel through the pipeline: leaderboard entries, report
//! entries, the changes between two snapshots, and the batches in which
//! changes are published.

use vstd::prelude::*;
use crate::ident::{generate, is_id};
use crate::ranking::Ranked;
use crate::text::{copy_optional_text, same_optional_text};

pub mod embed_colors;
pub mod my_date_format;
pub mod redis_keys;

verus! {

/// One participant of a programme's leaderboard.
#[derive(Debug, Clone)]
pub struct RepData {
    pub reputation: i64,
    pub rank: i64,
    pub user_name: String,
    pub user_profile_image_url: String,
    pub user_id: String,
    pub team_handle: Option<String>,
}

/// A leaderboard entry as a mathematical value.
pub struct RepDataView {
    pub reputation: int,
    pub rank: int,
    pub user_name: Seq<char>,
    pub user_profile_image_url: Seq<char>,
    pub user_id: Seq<char>,
    pub team_handle: Option<Seq<char>>,
}

/// What makes two leaderboard entries the same participant: the user and the
/// programme.
pub struct RepIdentity {
    pub user_id: Seq<char>,
    pub team_handle: Option<Seq<char>>,
}

impl RepDataView {
    /// The entry that stands for "no participant" on one side of a change.
    pub open spec fn sentinel() -> RepDataView {
        RepDataView {
            reputation: -1,
            rank: -1,
            user_name: Seq::empty(),
            user_profile_image_url: Seq::empty(),
            user_id: Seq::empty(),
            team_handle: None,
        }
    }

    pub open spec fn is_sentinel(self) -> bool {
        self == Self::sentinel()
    }

    pub open spec fn identity(self) -> RepIdentity {
        RepIdentity { user_id: self.user_id, team_handle: self.team_handle }
    }
}

impl DeepView for RepData {
    type V = RepDataView;

    open spec fn deep_view(&self) -> RepDataView {
        RepDataView {
            reputation: self.reputation as int,
            rank: self.rank as int,
            user_name: self.user_name@,
            user_profile_image_url: self.user_profile_image_url@,
            user_id: self.user_id@,
            team_handle: self.team_handle.deep_view(),
        }
    }
}

impl View for RepData {
    type V = RepDataView;

    open spec fn view(&self) -> RepDataView {
        self.deep_view()
    }
}

impl Default for RepData {
    fn default() -> (r: RepData)
        ensures
            r@ == (RepDataView {
                reputation: 0,
                rank: 0,
                user_name: Seq::empty(),
                user_profile_image_url: Seq::empty(),
                user_id: Seq::empty(),
                team_handle: None,
            }),
    {
        RepData {
            reputation: 0,
            rank: 0,
            user_name: String::new(),
            user_profile_image_url: String::new(),
            user_id: String::new(),
            team_handle: None,
        }
    }
}

impl RepData {
    /// The entry that stands for "no participant" on one side of a change.
    pub fn sentinel() -> (r: RepData)
        ensures
            r@ == RepDataView::sentinel(),
    {
        RepData {
            reputation: -1,
            rank: -1,
            user_name: String::new(),
            user_profile_image_url: String::new(),
            user_id: String::new(),
            team_handle: None,
        }
    }

    /// Whether this is the entry that stands for "no participant".
    pub fn is_sentinel(&self) -> (r: bool)
        ensures
            r == self@.is_sentinel(),
    {
        let r = self.reputation == -1 && self.rank == -1 && self.user_name.as_str().is_empty()
            && self.user_profile_image_url.as_str().is_empty() && self.user_id.as_str().is_empty()
            && self.team_handle.is_none();
        proof {
            if r {
                assert(self@.user_name =~= Seq::empty());
                assert(self@.user_profile_image_url =~= Seq::empty());
                assert(self@.user_id =~= Seq::empty());
            }
        }
        r
    }

    /// Whether two entries are the same participant.
    pub fn same_identity(&self, other: &RepData) -> (r: bool)
        ensures
            r == (self@.identity() == other@.identity()),
    {
        self.user_id == other.user_id && same_optional_text(&self.team_handle, &other.team_handle)
    }

    /// A copy of the entry.
    pub fn duplicate(&self) -> (r: RepData)
        ensures
            r@ == self@,
    {
        RepData {
            reputation: self.reputation,
            rank: self.rank,
            user_name: self.user_name.clone(),
            user_profile_image_url: self.user_profile_image_url.clone(),
            user_id: self.user_id.clone(),
            team_handle: copy_optional_text(&self.team_handle),
        }
    }
}

/// What a change says happened to a participant.
#[derive(Debug, Clone, Copy, PartialEq, Eq, Structural)]
pub enum ChangeKind {
    /// The participant is new: the side before is the sentinel.
    Added,
    /// The participant is gone: the side after is the sentinel.
    Removed,
    /// The participant is on both sides, with another reputation.
    Updated,
}

/// One difference between two leaderboard snapshots: the entry before and
/// the entry after, either of which may be the sentinel.
#[derive(Debug, Clone)]
pub struct RepChange {
    pub before: RepData,
    pub after: RepData,
}

/// A change as a mathematical value.
pub struct RepChangeView {
    pub before: RepDataView,
    pub after: RepDataView,
}

impl RepChangeView {
    pub open spec fn kind(self) -> ChangeKind {
        if self.before.is_sentinel() {
            ChangeKind::Added
        } else if self.after.is_sentinel() {
            ChangeKind::Removed
        } else {
            ChangeKind::Updated
        }
    }

    /// The side that is a participant: the one after, unless that is the
    /// sentinel.
    pub open spec fn subject(self) -> RepDataView {
        if self.after.is_sentinel() {
            self.before
        } else {
            self.after
        }
    }

    /// The rank by which changes are ordered for delivery: that of the side
    /// after, or of the side before where the participant is gone.
    pub open spec fn rank_key(self) -> int {
        self.subject().rank
    }
}

impl DeepView for RepChange {
    type V = RepChangeView;

    open spec fn deep_view(&self) -> RepChangeView {
        RepChangeView { before: self.before@, after: self.after@ }
    }
}

impl View for RepChange {
    type V = RepChangeView;

    open spec fn view(&self) -> RepChangeView {
        self.deep_view()
    }
}

impl RepChange {
    pub fn kind(&self) -> (r: ChangeKind)
        ensures
            r == self@.kind(),
    {
        if self.before.is_sentinel() {
            ChangeKind::Added
        } else if self.after.is_sentinel() {
            ChangeKind::Removed
        } else {
            ChangeKind::Updated
        }
    }

    /// The rank by which changes are ordered for delivery.
    pub fn rank_key(&self) -> (r: i64)
        ensures
            r == self@.rank_key(),
    {
        if self.after.is_sentinel() {
            self.before.rank
        } else {
            self.after.rank
        }
    }

    /// A copy of the change.
    pub fn duplicate(&self) -> (r: RepChange)
        ensures
            r@ == self@,
    {
        RepChange { before: self.before.duplicate(), after: self.after.duplicate() }
    }
}

/// A copy of a list of leaderboard entries.
pub fn copy_entries(entries: &Vec<RepData>) -> (r: Vec<RepData>)
    ensures
        r.deep_view() == entries.deep_view(),
{
    let mut out: Vec<RepData> = Vec::new();
    let mut i: usize = 0;
    while i < entries.len()
        invariant
            i <= entries.len(),
            out.len() == i,
            forall|k: int| 0 <= k < i ==> out[k]@ == entries[k]@,
        decreases entries.len() - i,
    {
        out.push(entries[i].duplicate());
        i += 1;
    }
    assert(out.deep_view() =~= entries.deep_view());
    out
}

/// A copy of a list of changes.
pub fn copy_changes(changes: &Vec<RepChange>) -> (r: Vec<RepChange>)
    ensures
        r.deep_view() == changes.deep_view(),
{
    let mut out: Vec<RepChange> = Vec::new();
    let mut i: usize = 0;
    while i < changes.len()
        invariant
            i <= changes.len(),
            out.len() == i,
            forall|k: int| 0 <= k < i ==> out[k]@ == changes[k]@,
        decreases changes.len() - i,
    {
        out.push(changes[i].duplicate());
        i += 1;
    }
    assert(out.deep_view() =~= changes.deep_view());
    out
}

impl Ranked for RepChange {
    open spec fn rank(&self) -> int {
        self@.rank_key()
    }

    fn rank_of(&self) -> (r: i64) {
        self.rank_key()
    }
}

/// A batch of leaderboard changes, as it is published and kept for replay.
#[derive(Debug)]
pub struct RepDataQueueItem {
    /// The batch's identifier, given at publication.
    pub id: Option<String>,
    pub diff: Vec<RepChange>,
    /// Whether notifications are to name the programme.
    pub include_team_handle: bool,
    /// When the batch was made, in milliseconds since the Unix epoch.
    pub created_at: i64,
}

/// A batch of leaderboard changes as a mathematical value.
pub struct RepDataQueueItemView {
    pub id: Option<Seq<char>>,
    pub diff: Seq<RepChangeView>,
    pub include_team_handle: bool,
    pub created_at: int,
}

impl DeepView for RepDataQueueItem {
    type V = RepDataQueueItemView;

    open spec fn deep_view(&self) -> RepDataQueueItemView {
        RepDataQueueItemView {
            id: self.id.deep_view(),
            diff: self.diff.deep_view(),
            include_team_handle: self.include_team_handle,
            created_at: self.created_at as int,
        }
    }
}

impl View for RepDataQueueItem {
    type V = RepDataQueueItemView;

    open spec fn view(&self) -> RepDataQueueItemView {
        self.deep_view()
    }
}

impl Ranked for RepDataQueueItem {
    open spec fn rank(&self) -> int {
        self.created_at as int
    }

    fn rank_of(&self) -> (r: i64) {
        self.created_at
    }
}

impl RepDataQueueItem {
    /// Gives the batch a new random identifier. Nothing else changes.
    pub fn create_id(&mut self)
        ensures
            final(self).id matches Some(id) && is_id(id@),
            final(self).diff == old(self).diff,
            final(self).include_team_handle == old(self).include_team_handle,
            final(self).created_at == old(self).created_at,
    {
        self.id = Some(generate());
    }
}

/// One disclosed report.
#[derive(Debug, Clone)]
pub struct ReportData {
    pub user_name: String,
    pub user_id: String,
    pub currency: String,
    /// The bounty in whole units of `currency`; negative where it is hidden.
    pub awarded_amount: i64,
    pub id: Option<String>,
    pub title: Option<String>,
    pub url: Option<String>,
    pub summary: Option<String>,
    pub severity: Option<String>,
    pub collaboration: bool,
    pub disclosed: bool,
}

/// A report as a mathematical value.
pub struct ReportDataView {
    pub user_name: Seq<char>,
    pub user_id: Seq<char>,
    pub currency: Seq<char>,
    pub awarded_amount: int,
    pub id: Option<Seq<char>>,
    pub title: Option<Seq<char>>,
    pub url: Option<Seq<char>>,
    pub summary: Option<Seq<char>>,
    pub severity: Option<Seq<char>>,
    pub collaboration: bool,
    pub disclosed: bool,
}

impl ReportDataView {
    /// The report that stands for "no report" on the side before of a
    /// change: empty texts, no bounty, nothing optional, not disclosed.
    pub open spec fn sentinel() -> ReportDataView {
        ReportDataView {
            user_name: Seq::empty(),
            user_id: Seq::empty(),
            currency: Seq::empty(),
            awarded_amount: 0,
            id: None,
            title: None,
            url: None,
            summary: None,
            severity: None,
            collaboration: false,
            disclosed: false,
        }
    }

    /// What makes two entries the same report: the report's number, the
    /// empty text standing for a missing one.
    pub open spec fn identity(self) -> Seq<char> {
        match self.id {
            Some(id) => id,
            None => Seq::empty(),
        }
    }
}

impl DeepView for ReportData {
    type V = ReportDataView;

    open spec fn deep_view(&self) -> ReportDataView {
        ReportDataView {
            user_name: self.user_name@,
            user_id: self.user_id@,
            currency: self.currency@,
            awarded_amount: self.awarded_amount as int,
            id: self.id.deep_view(),
            title: self.title.deep_view(),
            url: self.url.deep_view(),
            summary: self.summary.deep_view(),
            severity: self.severity.deep_view(),
            collaboration: self.collaboration,
            disclosed: self.disclosed,
        }
    }
}

impl View for ReportData {
    type V = ReportDataView;

    open spec fn view(&self) -> ReportDataView {
        self.deep_view()
    }
}

impl Default for ReportData {
    fn default() -> (r: ReportData)
        ensures
            r@ == ReportDataView::sentinel(),
    {
        ReportData {
            user_name: String::new(),
            user_id: String::new(),
            currency: String::new(),
            awarded_amount: 0,
            id: None,
            title: None,
            url: None,
            summary: None,
            severity: None,
            collaboration: false,
            disclosed: false,
        }
    }
}

impl ReportData {
    /// Whether two entries are the same report.
    pub fn same_identity(&self, other: &ReportData) -> (r: bool)
        ensures
            r == (self@.identity() == other@.identity()),
    {
        match &self.id {
            Some(mine) => match &other.id {
                Some(theirs) => *mine == *theirs,
                None => {
                    let r = mine.as_str().is_empty();
                    assert(r ==> mine@ =~= Seq::<char>::empty());
                    r
                },
            },
            None => match &other.id {
                Some(theirs) => {
                    let r = theirs.as_str().is_empty();
                    assert(r ==> theirs@ =~= Seq::<char>::empty());
                    r
                },
                None => true,
            },
        }
    }

    /// A copy of the entry.
    pub fn duplicate(&self) -> (r: ReportData)
        ensures
            r@ == self@,
    {
        ReportData {
            user_name: self.user_name.clone(),
            user_id: self.user_id.clone(),
            currency: self.currency.clone(),
            awarded_amount: self.awarded_amount,
            id: copy_optional_text(&self.id),
            title: copy_optional_text(&self.title),
            url: copy_optional_text(&self.url),
            summary: copy_optional_text(&self.summary),
            severity: copy_optional_text(&self.severity),
            collaboration: self.collaboration,
            disclosed: self.disclosed,
        }
    }
}

/// One difference between two lists of reports: the entry before, which is
/// the sentinel for a report not seen before, and the entry after.
#[derive(Debug, Clone)]
pub struct ReportChange {
    pub before: ReportData,
    pub after: ReportData,
}

/// A report change as a mathematical value.
pub struct ReportChangeView {
    pub before: ReportDataView,
    pub after: ReportDataView,
}

impl DeepView for ReportChange {
    type V = ReportChangeView;

    open spec fn deep_view(&self) -> ReportChangeView {
        ReportChangeView { before: self.before@, after: self.after@ }
    }
}

impl View for ReportChange {
    type V = ReportChangeView;

    open spec fn view(&self) -> ReportChangeView {
        self.deep_view()
    }
}

/// A batch of report changes, as it is published.
#[derive(Debug)]
pub struct ReportsDataQueueItem {
    /// The batch's identifier, given at publication.
    pub id: Option<String>,
    pub team_handle: Option<String>,
    pub diff: Vec<ReportChange>,
    /// When the batch was made, in milliseconds since the Unix epoch.
    pub created_at: i64,
}

impl ReportsDataQueueItem {
    /// Gives the batch a new random identifier. Nothing else changes.
    pub fn create_id(&mut self)
        ensures
            final(self).id matches Some(id) && is_id(id@),
            final(self).team_handle == old(self).team_handle,
            final(self).diff == old(self).diff,
            final(self).created_at == old(self).created_at,
    {
        self.id = Some(generate());
    }
}

/// What a participant's profile says of their reports to one programme.
#[derive(Debug)]
pub struct UserThanksData {
    pub user_id: String,
    pub user_name: String,
    pub team_handle: String,
    pub resolved_report_count: i64,
    pub invalid_report_count: i64,
    pub total_report_count: i64,
    pub reputation: i64,
}

/// A participant's report counts as a mathematical value.
pub struct UserThanksDataView {
    pub user_id: Seq<char>,
    pub user_name: Seq<char>,
    pub team_handle: Seq<char>,
    pub resolved_report_count: int,
    pub invalid_report_count: int,
    pub total_report_count: int,
    pub reputation: int,
}

impl DeepView for UserThanksData {
    type V = UserThanksDataView;

    open spec fn deep_view(&self) -> UserThanksDataView {
        UserThanksDataView {
            user_id: self.user_id@,
            user_name: self.user_name@,
            team_handle: self.team_handle@,
            resolved_report_count: self.resolved_report_count as int,
            invalid_report_count: self.invalid_report_count as int,
            total_report_count: self.total_report_count as int,
            reputation: self.reputation as int,
        }
    }
}

impl View for UserThanksData {
    type V = UserThanksDataView;

    open spec fn view(&self) -> UserThanksDataView {
        self.deep_view()
    }
}

/// By how many a participant's reports closed without effect have grown.
#[derive(Debug)]
pub struct UserInvalidReportChange {
    pub user_id: String,
    pub user_name: String,
    pub invalid_reports: i64,
    pub team_handle: String,
}

/// A growth of reports closed without effect as a mathematical value.
pub struct UserInvalidReportChangeView {
    pub user_id: Seq<char>,
    pub user_name: Seq<char>,
    pub invalid_reports: int,
    pub team_handle: Seq<char>,
}

impl DeepView for UserInvalidReportChange {
    type V = UserInvalidReportChangeView;

    open spec fn deep_view(&self) -> UserInvalidReportChangeView {
        UserInvalidReportChangeView {
            user_id: self.user_id@,
            user_name: self.user_name@,
            invalid_reports: self.invalid_reports as int,
            team_handle: self.team_handle@,
        }
    }
}

impl View for UserInvalidReportChange {
    type V = UserInvalidReportChangeView;

    open spec fn view(&self) -> UserInvalidReportChangeView {
        self.deep_view()
    }
}

/// The growths of one programme, as they are published together.
#[derive(Debug)]
pub struct InvalidReportsQueueItem {
    pub changes: Vec<UserInvalidReportChange>,
    pub team_handle: String,
}

} // verus!
