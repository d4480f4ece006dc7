//! What is computed around the upstream service: its queries as plain
//! values, the session cookie, and the anti-forgery token of a page.

use vstd::prelude::*;
use vstd::string::StringExecFns;
use crate::fetch::Page;
use crate::models::{
    RepData, RepDataView, ReportData, ReportDataView, UserThanksData, UserThanksDataView,
};
use crate::text::{clamped_difference, difference};

verus! {

/// The error with which a pattern is refused.
#[verifier::external_type_specification]
#[verifier::external_body]
pub struct ExPatternError(regex::Error);

/// The pattern that finds the anti-forgery token in a page: the `meta`
/// element named `csrf-token`, whose content, at least one character and
/// none of them a quotation mark, is the token.
pub const CSRF_PATTERN: &'static str = "<meta name=\"csrf-token\" content=\"([^\"]+)\" />";

/// Whether `regex::Regex::new` accepts `pattern`.
pub uninterp spec fn pattern_compiles(pattern: Seq<char>) -> bool;

/// What the first capture group holds in the match that
/// `regex::Regex::captures` finds for `pattern` in `haystack`: nothing where
/// there is no match, or where the group took no part in it.
pub uninterp spec fn first_group(pattern: Seq<char>, haystack: Seq<char>) -> Option<Seq<char>>;

/// Compiles `pattern` with `regex::Regex::new`, searches `haystack` with
/// `Regex::captures`, and hands out the text of capture group 1.
///
/// Trusted: that the call fails exactly for the patterns that do not
/// compile, and that its result otherwise depends on the pattern and the
/// haystack alone. What the result is, is only named, not stated.
#[verifier::external_body]
fn capture_first_group(pattern: &str, haystack: &str) -> (r: Result<Option<String>, regex::Error>)
    ensures
        r is Ok <==> pattern_compiles(pattern@),
        r matches Ok(found) ==> found.deep_view() == first_group(pattern@, haystack@),
{
    match regex::Regex::new(pattern) {
        Err(error) => Err(error),
        Ok(compiled) => match compiled.captures(haystack) {
            None => Ok(None),
            Some(found) => match found.get(1) {
                Some(group) => Ok(Some(group.as_str().to_string())),
                None => Ok(None),
            },
        },
    }
}

/// The token for what the search of a page gave: the text found, or nothing
/// where nothing was found or the pattern was refused.
pub fn token_of(outcome: Result<Option<String>, regex::Error>) -> (r: Option<String>)
    ensures
        match outcome {
            Ok(found) => r == found,
            Err(_) => r is None,
        },
{
    match outcome {
        Ok(found) => found,
        Err(_) => None,
    }
}

/// The anti-forgery token in `html`: what `CSRF_PATTERN` captures there.
pub open spec fn csrf_token_in(html: Seq<char>) -> Option<Seq<char>> {
    if pattern_compiles(CSRF_PATTERN@) {
        first_group(CSRF_PATTERN@, html)
    } else {
        None
    }
}

/// Finds the anti-forgery token in a page.
pub fn extract_csrf_token(html: &str) -> (r: Option<String>)
    ensures
        r.deep_view() == csrf_token_in(html@),
{
    token_of(capture_first_group(CSRF_PATTERN, html))
}

/// The credentials of a session with the upstream service.
#[derive(Debug, Clone)]
pub struct HackerOneClient {
    pub csrf_token: Option<String>,
    pub session_token: Option<String>,
}

/// The session cookie for a session token.
pub open spec fn session_cookie(session_token: Seq<char>) -> Seq<char> {
    "__Host-session="@ + session_token
}

impl HackerOneClient {
    pub fn new(csrf_token: String, session_token: String) -> (client: HackerOneClient)
        ensures
            client.csrf_token == Some(csrf_token),
            client.session_token == Some(session_token),
    {
        HackerOneClient { csrf_token: Some(csrf_token), session_token: Some(session_token) }
    }

    /// The cookie that carries the session; that of the empty token where
    /// the client has none.
    pub fn cookie(&self) -> (r: String)
        ensures
            r@ == session_cookie(
                match self.session_token {
                    Some(token) => token@,
                    None => Seq::empty(),
                },
            ),
    {
        let mut cookie = String::from_str("__Host-session=");
        match &self.session_token {
            Some(token) => {
                cookie.append(token.as_str());
            },
            None => {
                assert(cookie@ + Seq::<char>::empty() =~= cookie@);
            },
        }
        cookie
    }
}

/// The direction of a sort.
#[derive(Debug, Clone, Copy, PartialEq, Eq, Structural)]
pub enum OrderDirection {
    ASC,
    DESC,
}

impl Default for OrderDirection {
    fn default() -> (r: OrderDirection)
        ensures
            r == OrderDirection::DESC,
    {
        OrderDirection::DESC
    }
}

/// The field by which a programme's activity is sorted.
#[derive(Debug, Clone, Copy, PartialEq, Eq, Structural)]
pub enum HacktivityOrderFieldEnum {
    Popular,
}

impl Default for HacktivityOrderFieldEnum {
    fn default() -> (r: HacktivityOrderFieldEnum)
        ensures
            r == HacktivityOrderFieldEnum::Popular,
    {
        HacktivityOrderFieldEnum::Popular
    }
}

/// The query for one page of a programme's leaderboard.
#[derive(Debug)]
pub struct TeamYearThankQuery {
    pub selected_handle: String,
    pub year: Option<i64>,
    pub cursor: String,
}

impl TeamYearThankQuery {
    /// The query for the page of `handle`'s leaderboard of all years that
    /// starts at `cursor`; the first page where there is no cursor.
    pub fn page(handle: &str, cursor: Option<String>) -> (query: TeamYearThankQuery)
        ensures
            query.selected_handle@ == handle@,
            query.year is None,
            query.cursor@ == match cursor {
                Some(text) => text@,
                None => Seq::empty(),
            },
    {
        TeamYearThankQuery {
            selected_handle: String::from_str(handle),
            year: None,
            cursor: match cursor {
                Some(text) => text,
                None => String::new(),
            },
        }
    }

    /// The query that tells whether `handle` can be read at all: the first
    /// page of its leaderboard of the year `year`.
    pub fn probe(handle: &str, year: i64) -> (query: TeamYearThankQuery)
        ensures
            query.selected_handle@ == handle@,
            query.year == Some(year),
            query.cursor@ == Seq::<char>::empty(),
    {
        TeamYearThankQuery {
            selected_handle: String::from_str(handle),
            year: Some(year),
            cursor: String::new(),
        }
    }
}

/// The query for a page of a programme's activity.
#[derive(Debug)]
pub struct TeamHacktivityPageQuery {
    pub order_direction: OrderDirection,
    pub order_field: HacktivityOrderFieldEnum,
}

impl Default for TeamHacktivityPageQuery {
    fn default() -> (r: TeamHacktivityPageQuery)
        ensures
            r.order_direction == OrderDirection::DESC,
            r.order_field == HacktivityOrderFieldEnum::Popular,
    {
        TeamHacktivityPageQuery {
            order_direction: OrderDirection::default(),
            order_field: HacktivityOrderFieldEnum::default(),
        }
    }
}

/// The query for the latest disclosed reports.
#[derive(Debug)]
pub struct CompleteHacktivitySearchQuery {
    pub query_string: String,
    pub from: i64,
    pub size: i64,
    pub sort_field: String,
    pub sort_direction: OrderDirection,
}

/// The search text for disclosed reports: of all programmes, or of the
/// programme named.
pub open spec fn disclosed_search(team_name: Option<Seq<char>>) -> Seq<char> {
    match team_name {
        Some(name) => "disclosed:true"@ + "&& team:(\""@ + name + "\")"@,
        None => "disclosed:true"@,
    }
}

impl CompleteHacktivitySearchQuery {
    /// The query for the ten reports disclosed last, most recent first.
    pub fn disclosed(team_name: Option<String>) -> (query: CompleteHacktivitySearchQuery)
        ensures
            query.query_string@ == disclosed_search(team_name.deep_view()),
            query.from == 0,
            query.size == 10,
            query.sort_field@ == "latest_disclosable_activity_at"@,
            query.sort_direction == OrderDirection::DESC,
    {
        let mut query_string = String::from_str("disclosed:true");
        match team_name {
            Some(name) => {
                query_string.append("&& team:(\"");
                query_string.append(name.as_str());
                query_string.append("\")");
            },
            None => {},
        }
        CompleteHacktivitySearchQuery {
            query_string,
            from: 0,
            size: 10,
            sort_field: String::from_str("latest_disclosable_activity_at"),
            sort_direction: OrderDirection::DESC,
        }
    }
}

/// The query for the name of a programme.
#[derive(Debug)]
pub struct TeamNameHacktivityQuery {
    pub handle: String,
}

impl TeamNameHacktivityQuery {
    pub fn new(handle: &str) -> (query: TeamNameHacktivityQuery)
        ensures
            query.handle@ == handle@,
    {
        TeamNameHacktivityQuery { handle: String::from_str(handle) }
    }
}

/// The query for one page of the list of programmes.
#[derive(Debug)]
pub struct DiscoveryQuery {
    pub size: i64,
    pub from: i64,
    pub sort_field: String,
    pub sort_direction: OrderDirection,
}

/// The number of programmes asked for in one page.
pub const DISCOVERY_PAGE_SIZE: usize = 100;

impl DiscoveryQuery {
    /// The query for the page of programmes behind the first `after`, newest
    /// first.
    pub fn page(after: usize) -> (query: DiscoveryQuery)
        requires
            after <= i64::MAX,
        ensures
            query.size == DISCOVERY_PAGE_SIZE,
            query.from == after,
            query.sort_field@ == "launched_at"@,
            query.sort_direction == OrderDirection::DESC,
    {
        DiscoveryQuery {
            size: DISCOVERY_PAGE_SIZE as i64,
            from: after as i64,
            sort_field: String::from_str("launched_at"),
            sort_direction: OrderDirection::DESC,
        }
    }
}

/// One row of a leaderboard page, as the upstream gives it.
#[derive(Debug)]
pub struct Participant {
    pub username: String,
    pub database_id: String,
    pub profile_picture: String,
    pub reputation: Option<i64>,
    pub rank: Option<i64>,
}

/// The leaderboard entry of a row: a missing reputation counts as none, a
/// missing rank as unknown.
pub open spec fn entry_of(row: Participant, team_handle: Seq<char>) -> RepDataView {
    RepDataView {
        reputation: match row.reputation {
            Some(reputation) => reputation as int,
            None => 0,
        },
        rank: match row.rank {
            Some(rank) => rank as int,
            None => -1,
        },
        user_name: row.username@,
        user_profile_image_url: row.profile_picture@,
        user_id: row.database_id@,
        team_handle: Some(team_handle),
    }
}

/// The leaderboard entry of a row of the programme `team_handle`.
pub fn leaderboard_entry(row: Participant, team_handle: &str) -> (entry: RepData)
    ensures
        entry@ == entry_of(row, team_handle@),
{
    RepData {
        reputation: match row.reputation {
            Some(reputation) => reputation,
            None => 0,
        },
        rank: match row.rank {
            Some(rank) => rank,
            None => -1,
        },
        user_name: row.username,
        user_profile_image_url: row.profile_picture,
        user_id: row.database_id,
        team_handle: Some(String::from_str(team_handle)),
    }
}

/// A page of a programme's leaderboard: the entries of its rows, in order,
/// with the upstream's cursor and its word on a further page. Where the
/// upstream gives no rows at all, the page holds no list.
pub fn leaderboard_page(
    rows: Option<Vec<Participant>>,
    team_handle: &str,
    end_cursor: Option<String>,
    has_next_page: bool,
) -> (page: Page<RepData>)
    ensures
        rows is None <==> page.items is None,
        rows is Some ==> {
            &&& page.items->0@.len() == rows->0@.len()
            &&& forall|i: int|
                0 <= i < rows->0@.len() ==> (#[trigger] page.items->0@[i])@ == entry_of(
                    rows->0@[i],
                    team_handle@,
                )
        },
        page.next_cursor == end_cursor,
        page.has_more == has_next_page,
{
    match rows {
        None => Page { items: None, next_cursor: end_cursor, has_more: has_next_page },
        Some(given) => {
            let mut rest = given;
            let mut items: Vec<RepData> = Vec::new();
            while rest.len() > 0
                invariant
                    items@.len() + rest@.len() == given@.len(),
                    forall|k: int| 0 <= k < rest@.len() ==> rest@[k] == given@[items@.len() + k],
                    forall|i: int|
                        0 <= i < items@.len() ==> (#[trigger] items@[i])@ == entry_of(
                            given@[i],
                            team_handle@,
                        ),
                decreases rest.len(),
            {
                let row = rest.remove(0);
                items.push(leaderboard_entry(row, team_handle));
            }
            Page { items: Some(items), next_cursor: end_cursor, has_more: has_next_page }
        },
    }
}

/// The report behind an entry of the activity feed.
#[derive(Debug)]
pub struct DisclosedReport {
    pub id: String,
    pub title: Option<String>,
    /// Whether the report has generated content, and the summary in it.
    pub generated_summary: Option<Option<String>>,
}

/// Who wrote a report.
#[derive(Debug)]
pub struct Reporter {
    pub username: String,
    pub id: String,
}

/// An entry of the activity feed that is about a report, as the upstream
/// gives it.
#[derive(Debug)]
pub struct HacktivityDocument {
    pub id: String,
    pub report: Option<DisclosedReport>,
    pub disclosed: Option<bool>,
    pub currency: Option<String>,
    pub total_awarded_amount: Option<i64>,
    pub has_collaboration: Option<bool>,
    pub severity_rating: Option<String>,
    pub reporter: Option<Reporter>,
}

/// An entry of the activity feed.
#[derive(Debug)]
pub enum SearchNode {
    Hacktivity(HacktivityDocument),
    /// An entry of another kind.
    Other,
}

/// `text` in lower case, as `str::to_lowercase` gives it.
pub uninterp spec fn lowercased(text: Seq<char>) -> Seq<char>;

/// `str::to_lowercase`.
///
/// Trusted: that the result depends on the text alone. It is named, not
/// stated.
#[verifier::external_body]
fn to_lowercase(text: &str) -> (r: String)
    ensures
        r@ == lowercased(text@),
{
    text.to_lowercase()
}

/// The address of the page of the report with the number `id`.
pub open spec fn report_url(id: Seq<char>) -> Seq<char> {
    "https://hackerone.com/reports/"@ + id
}

/// The report that a disclosed entry of the feed stands for, where
/// `severity` is its severity rating in lower case, if it has one.
pub open spec fn disclosed_report(
    document: HacktivityDocument,
    report: DisclosedReport,
    severity: Option<Seq<char>>,
) -> ReportDataView {
    ReportDataView {
        user_name: match document.reporter {
            Some(reporter) => reporter.username@,
            None => "(unknown)"@,
        },
        user_id: match document.reporter {
            Some(reporter) => reporter.id@,
            None => "1"@,
        },
        currency: match document.currency {
            Some(currency) => currency@,
            None => "(unknown currency)"@,
        },
        awarded_amount: match document.total_awarded_amount {
            Some(amount) => amount as int,
            None => -1,
        },
        id: Some(report.id@),
        title: report.title.deep_view(),
        url: Some(report_url(document.id@)),
        summary: match report.generated_summary {
            Some(Some(summary)) => Some(summary@),
            Some(None) => Some("This report does not have a summary"@),
            None => None,
        },
        severity: Some(
            match severity {
                Some(rating) => rating,
                None => "unknown"@,
            },
        ),
        collaboration: document.has_collaboration == Some(true),
        disclosed: true,
    }
}

/// What an entry about a report yields, given its severity rating in lower
/// case: the report, where it is disclosed and at hand; nothing otherwise.
pub open spec fn report_of_document_spec(document: HacktivityDocument, severity: Option<Seq<char>>)
    -> Option<ReportDataView> {
    match document.report {
        Some(report) => if document.disclosed == Some(true) {
            Some(disclosed_report(document, report, severity))
        } else {
            None
        },
        None => None,
    }
}

/// The severity rating of an entry in lower case, if it has one.
pub open spec fn lowered_severity(document: HacktivityDocument) -> Option<Seq<char>> {
    match document.severity_rating {
        Some(rating) => Some(lowercased(rating@)),
        None => None,
    }
}

/// What an entry of the feed yields: for an entry about a report that is
/// disclosed and at hand, that report; for an entry about a report that is
/// not, nothing; for an entry of another kind, the sentinel.
pub open spec fn report_of_node(node: SearchNode) -> Option<ReportDataView> {
    match node {
        SearchNode::Hacktivity(document) => report_of_document_spec(
            document,
            lowered_severity(document),
        ),
        SearchNode::Other => Some(ReportDataView::sentinel()),
    }
}

/// The reports that the entries of a page of the feed yield, in order. An
/// entry that is missing yields nothing.
pub open spec fn reports_of_nodes(nodes: Seq<Option<SearchNode>>) -> Seq<ReportDataView>
    decreases nodes.len(),
{
    if nodes.len() == 0 {
        Seq::empty()
    } else {
        let rest = reports_of_nodes(nodes.drop_last());
        match nodes.last() {
            Some(node) => match report_of_node(node) {
                Some(report) => rest.push(report),
                None => rest,
            },
            None => rest,
        }
    }
}

/// The report that an entry about a report yields, if any, given the
/// entry's severity rating in lower case.
pub fn report_of_document(document: HacktivityDocument, severity: Option<String>) -> (r: Option<
    ReportData,
>)
    ensures
        r.deep_view() == report_of_document_spec(document, severity.deep_view()),
{
    let HacktivityDocument {
        id,
        report,
        disclosed,
        currency,
        total_awarded_amount,
        has_collaboration,
        severity_rating: _,
        reporter,
    } = document;
    let is_disclosed = match disclosed {
        Some(flag) => flag,
        None => false,
    };
    match report {
        None => None,
        Some(report) => {
            if !is_disclosed {
                return None;
            }
            let mut url = String::from_str("https://hackerone.com/reports/");
            url.append(id.as_str());
            let (user_name, user_id) = match reporter {
                Some(reporter) => (reporter.username, reporter.id),
                None => (String::from_str("(unknown)"), String::from_str("1")),
            };
            Some(
                ReportData {
                    user_name,
                    user_id,
                    currency: match currency {
                        Some(currency) => currency,
                        None => String::from_str("(unknown currency)"),
                    },
                    awarded_amount: match total_awarded_amount {
                        Some(amount) => amount,
                        None => -1,
                    },
                    id: Some(report.id),
                    title: report.title,
                    url: Some(url),
                    summary: match report.generated_summary {
                        Some(Some(summary)) => Some(summary),
                        Some(None) => Some(String::from_str("This report does not have a summary")),
                        None => None,
                    },
                    severity: Some(
                        match severity {
                            Some(rating) => rating,
                            None => String::from_str("unknown"),
                        },
                    ),
                    collaboration: match has_collaboration {
                        Some(flag) => flag,
                        None => false,
                    },
                    disclosed: true,
                },
            )
        },
    }
}

/// The report that an entry of the feed yields, if any.
pub fn report_of(node: SearchNode) -> (r: Option<ReportData>)
    ensures
        r.deep_view() == report_of_node(node),
{
    match node {
        SearchNode::Other => Some(ReportData::default()),
        SearchNode::Hacktivity(document) => {
            let severity = match &document.severity_rating {
                Some(rating) => Some(to_lowercase(rating.as_str())),
                None => None,
            };
            report_of_document(document, severity)
        },
    }
}

/// The reports that the entries of a page of the feed yield.
pub fn reports_of(nodes: Vec<Option<SearchNode>>) -> (reports: Vec<ReportData>)
    ensures
        reports.deep_view() == reports_of_nodes(nodes@),
{
    let mut rest = nodes;
    let mut reports: Vec<ReportData> = Vec::new();
    let ghost mut done: Seq<Option<SearchNode>> = Seq::empty();
    proof {
        assert(done + rest@ =~= nodes@);
        assert(reports.deep_view() =~= reports_of_nodes(done));
    }
    while rest.len() > 0
        invariant
            done + rest@ == nodes@,
            reports.deep_view() == reports_of_nodes(done),
        decreases rest.len(),
    {
        let entry = rest.remove(0);
        let ghost before = reports.deep_view();
        proof {
            assert(done.push(entry).drop_last() =~= done);
        }
        match entry {
            Some(node) => match report_of(node) {
                Some(report) => {
                    reports.push(report);
                    assert(reports.deep_view() =~= before.push(report@));
                },
                None => {},
            },
            None => {},
        }
        proof {
            done = done.push(entry);
            assert(done + rest@ =~= nodes@);
        }
    }
    proof {
        assert(done =~= nodes@);
    }
    reports
}

/// What a participant's profile says of one programme, as the upstream
/// gives it.
#[derive(Debug)]
pub struct ThanksItem {
    /// The handle of the programme, where the entry names one.
    pub team_handle: Option<String>,
    pub report_count: Option<i64>,
    pub total_report_count: Option<i64>,
    pub reputation: Option<i64>,
}

/// A number, or zero where there is none.
pub open spec fn or_zero(n: Option<i64>) -> int {
    match n {
        Some(n) => n as int,
        None => 0,
    }
}

/// What an entry of a profile yields for the participant `user_id`: the
/// counts of the entry, missing ones as zero, with the reports closed without
/// effect being those that are not resolved. An entry that names no
/// programme yields nothing, nor does one of another programme than `only`,
/// where one is given.
pub open spec fn thanks_of_item(
    user_id: Seq<char>,
    user_name: Seq<char>,
    item: ThanksItem,
    only: Option<Seq<char>>,
) -> Option<UserThanksDataView> {
    match item.team_handle {
        Some(handle) => if only is Some && only->0 != handle@ {
            None
        } else {
            Some(
                UserThanksDataView {
                    user_id,
                    user_name,
                    team_handle: handle@,
                    resolved_report_count: or_zero(item.report_count),
                    invalid_report_count: clamped_difference(
                        or_zero(item.total_report_count),
                        or_zero(item.report_count),
                    ),
                    total_report_count: or_zero(item.total_report_count),
                    reputation: or_zero(item.reputation),
                },
            )
        },
        None => None,
    }
}

/// What the entries of a profile yield, in order. A missing entry yields
/// nothing.
pub open spec fn thanks_of_items(
    user_id: Seq<char>,
    user_name: Seq<char>,
    items: Seq<Option<ThanksItem>>,
    only: Option<Seq<char>>,
) -> Seq<UserThanksDataView>
    decreases items.len(),
{
    if items.len() == 0 {
        Seq::empty()
    } else {
        let rest = thanks_of_items(user_id, user_name, items.drop_last(), only);
        match items.last() {
            Some(item) => match thanks_of_item(user_id, user_name, item, only) {
                Some(thanks) => rest.push(thanks),
                None => rest,
            },
            None => rest,
        }
    }
}

fn or_0(n: Option<i64>) -> (r: i64)
    ensures
        r == or_zero(n),
{
    match n {
        Some(n) => n,
        None => 0,
    }
}

/// The report counts of the participant `user_id`, one entry for each
/// programme that the profile names; only for the programme `only`, where
/// one is given.
pub fn thanks_of(user_id: &str, user_name: &str, items: Vec<Option<ThanksItem>>, only: Option<&str>)
    -> (thanks: Vec<UserThanksData>)
    ensures
        thanks.deep_view() == thanks_of_items(
            user_id@,
            user_name@,
            items@,
            match only {
                Some(handle) => Some(handle@),
                None => None,
            },
        ),
{
    let ghost wanted: Option<Seq<char>> = match only {
        Some(handle) => Some(handle@),
        None => None,
    };
    let only_text: Option<String> = match only {
        Some(handle) => Some(String::from_str(handle)),
        None => None,
    };
    let mut rest = items;
    let mut thanks: Vec<UserThanksData> = Vec::new();
    let ghost mut done: Seq<Option<ThanksItem>> = Seq::empty();
    proof {
        assert(done + rest@ =~= items@);
        assert(thanks.deep_view() =~= thanks_of_items(user_id@, user_name@, done, wanted));
    }
    while rest.len() > 0
        invariant
            done + rest@ == items@,
            only_text.deep_view() == wanted,
            thanks.deep_view() == thanks_of_items(user_id@, user_name@, done, wanted),
        decreases rest.len(),
    {
        let entry = rest.remove(0);
        let ghost before = thanks.deep_view();
        proof {
            assert(done.push(entry).drop_last() =~= done);
        }
        match entry {
            Some(item) => {
                let ThanksItem { team_handle, report_count, total_report_count, reputation } = item;
                match team_handle {
                    Some(handle) => {
                        let skip = match &only_text {
                            Some(wanted_handle) => *wanted_handle != handle,
                            None => false,
                        };
                        if !skip {
                            let one = UserThanksData {
                                user_id: String::from_str(user_id),
                                user_name: String::from_str(user_name),
                                team_handle: handle,
                                resolved_report_count: or_0(report_count),
                                invalid_report_count: difference(
                                    or_0(total_report_count),
                                    or_0(report_count),
                                ),
                                total_report_count: or_0(total_report_count),
                                reputation: or_0(reputation),
                            };
                            thanks.push(one);
                            assert(thanks.deep_view() =~= before.push(one@));
                        }
                    },
                    None => {},
                }
            },
            None => {},
        }
        proof {
            done = done.push(entry);
            assert(done + rest@ =~= items@);
        }
    }
    proof {
        assert(done =~= items@);
    }
    thanks
}

} // verus!
