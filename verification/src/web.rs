//! The web pages' data: the template values and the HTML list of tracked
//! changes. Routing and serving live outside the library.

use crate::container::{spec_text_lookup, Change, Container};
use crate::report::{
    changes_by_owner_time, sorted_ids, spec_bucket_ids, spec_interval_text, spec_report_header,
    spec_time_report_rows, table_text, ChangesByOwnerAndTime, TimeInterval,
};
use crate::status::{spec_describe, NextStepOwner};
use crate::text::{spec_decimal, u64_to_string};
use vstd::prelude::*;
use vstd::relations::{sorted_by, total_ordering};
use vstd::seq_lib::{group_to_multiset_ensures, lemma_sorted_unique};

verus! {

broadcast use group_to_multiset_ensures;

/// The front page's values: the overall table and the change list.
#[derive(Debug)]
pub struct OverallTemplate {
    pub report_text: String,
    pub changes_text: String,
}

/// The by-repository page's values.
#[derive(Debug)]
pub struct RepoTemplate {
    pub report_text: String,
}

/// One project's page: its name, table and change list.
#[derive(Debug)]
pub struct ProjectTemplate {
    pub project: String,
    pub report_text: String,
    pub changes_text: String,
}

/// One author's page: the name, table and change list.
#[derive(Debug)]
pub struct UserTemplate {
    pub username: String,
    pub report_text: String,
    pub changes_text: String,
}

/// One change's status page.
#[derive(Debug)]
pub struct ChangeTemplate {
    pub change_id: String,
    pub review_status: String,
    pub gerrit_url: String,
}

/// The page shown when no change matches.
#[derive(Debug)]
pub struct ChangeNotFoundTemplate {
    pub change_id: String,
}

/// The landing page carries no values.
#[derive(Debug)]
pub struct RootTemplate;

/// Ascending order on identifiers.
pub open spec fn spec_id_leq() -> spec_fn(u64, u64) -> bool {
    |a: u64, b: u64| a <= b
}

/// The ascending ordering of a list of identifiers.
pub open spec fn spec_sorted_ids_of(s: Seq<u64>) -> Seq<u64> {
    s.sort_by(spec_id_leq())
}

/// An ascending list with the right contents is the ascending ordering.
proof fn lemma_sorted_result(src: Seq<u64>, out: Seq<u64>)
    requires
        sorted_ids(out),
        out.to_multiset() == src.to_multiset(),
    ensures
        out == spec_sorted_ids_of(src),
{
    src.lemma_sort_by_ensures(spec_id_leq());
    assert(total_ordering(spec_id_leq()));
    assert(sorted_by(out, spec_id_leq()));
    lemma_sorted_unique(out, spec_sorted_ids_of(src), spec_id_leq());
}

/// One change's card: its project, its state where asked for, its
/// subject, and a link to the review server. A change the community
/// filter rejects is marked as a company change.
pub open spec fn spec_card(e: Change, company: bool, show_state: bool) -> Seq<char> {
    "<div class=\"change-card"@ + (if company {
        " company-change"@
    } else {
        ""@
    }) + "\">\n"@ + "<div class=\"project-name\">"@ + e.change.project@ + "</div>\n"@ + (
    if show_state {
        "<div class=\"review-state\">"@ + spec_describe(e.review_state) + "</div>\n"@
    } else {
        ""@
    }) + "<div class=\"subject\">"@ + e.change.subject@ + "</div>\n"@
        + "<a class=\"gerrit-link\" href=\"https://gerrit.openbmc.org/c/"@ + e.change.project@
        + "/+/"@ + spec_decimal(e.change.id_number as nat) + "\">View in Gerrit</a>\n"@
        + "</div>\n"@
}

/// The cards of the listed identifiers, in order; an identifier no entry
/// carries shows nothing.
pub open spec fn spec_cards(
    ids: Seq<u64>,
    c: Container,
    company: Seq<u64>,
    show_state: bool,
) -> Seq<char>
    decreases ids.len(),
{
    if ids.len() == 0 {
        Seq::empty()
    } else {
        spec_cards(ids.drop_last(), c, company, show_state) + (match c.lookup(ids.last()) {
            Some(e) => spec_card(e, company.contains(ids.last()), show_state),
            None => Seq::empty(),
        })
    }
}

/// One bucket's section: its header and the cards of its changes in
/// ascending identifier order; an empty bucket shows nothing.
pub open spec fn spec_interval_section(
    ch: ChangesByOwnerAndTime,
    ti: TimeInterval,
    who: NextStepOwner,
    c: Container,
    company: Seq<u64>,
    show_state: bool,
) -> Seq<char> {
    let ids = spec_sorted_ids_of(ch.ids(ti, who));
    if ids.len() == 0 {
        Seq::empty()
    } else {
        "<div class=\"interval-section\">\n<h3 class=\"interval-header\">"@ + spec_interval_text(
            ti,
        ) + "</h3>\n"@ + "<div class=\"card-container\">\n"@ + spec_cards(
            ids,
            c,
            company,
            show_state,
        ) + "</div>\n"@ + "</div>\n"@
    }
}

/// The heading of one party's section.
pub open spec fn spec_owner_title(o: NextStepOwner) -> Seq<char> {
    match o {
        NextStepOwner::Author => "Author"@,
        NextStepOwner::Community => "Community"@,
        NextStepOwner::Maintainer => "Maintainer"@,
    }
}

/// The document identifier of one party's section.
pub open spec fn spec_owner_id(o: NextStepOwner) -> Seq<char> {
    match o {
        NextStepOwner::Author => "author"@,
        NextStepOwner::Community => "community"@,
        NextStepOwner::Maintainer => "maintainer"@,
    }
}

/// Whether any bucket lists a change for the party.
pub open spec fn spec_owner_has_changes(ch: ChangesByOwnerAndTime, who: NextStepOwner) -> bool {
    ||| ch.ids(TimeInterval::Under24Hours, who).len() > 0
    ||| ch.ids(TimeInterval::Under72Hours, who).len() > 0
    ||| ch.ids(TimeInterval::Under2Weeks, who).len() > 0
    ||| ch.ids(TimeInterval::Under8Weeks, who).len() > 0
    ||| ch.ids(TimeInterval::Over8Weeks, who).len() > 0
}

/// One party's section: a toggling heading and the five bucket sections,
/// freshest first; a party with no changes shows nothing. Only the
/// author's own cards carry the state line.
pub open spec fn spec_owner_section(
    ch: ChangesByOwnerAndTime,
    who: NextStepOwner,
    c: Container,
    company: Seq<u64>,
) -> Seq<char> {
    if !spec_owner_has_changes(ch, who) {
        Seq::empty()
    } else {
        let show_state = who is Author;
        "\n<h2>\n    <button class=\"twisty\" onclick=\"toggleSection('"@ + spec_owner_id(who)
            + "')\" aria-label=\"Toggle section\"></button> "@ + spec_owner_title(who)
            + "\n</h2>\n<div id=\""@ + spec_owner_id(who) + "-section\">\n"@
            + spec_interval_section(ch, TimeInterval::Under24Hours, who, c, company, show_state)
            + spec_interval_section(ch, TimeInterval::Under72Hours, who, c, company, show_state)
            + spec_interval_section(ch, TimeInterval::Under2Weeks, who, c, company, show_state)
            + spec_interval_section(ch, TimeInterval::Under8Weeks, who, c, company, show_state)
            + spec_interval_section(ch, TimeInterval::Over8Weeks, who, c, company, show_state)
            + "</div>\n"@
    }
}

/// The whole list: the author's section where asked for, then the
/// community's and the maintainers'.
pub open spec fn spec_list_of_changes(
    ch: ChangesByOwnerAndTime,
    c: Container,
    include_author: bool,
    company: Seq<u64>,
) -> Seq<char> {
    (if include_author {
        spec_owner_section(ch, NextStepOwner::Author, c, company)
    } else {
        Seq::empty()
    }) + spec_owner_section(ch, NextStepOwner::Community, c, company) + spec_owner_section(
        ch,
        NextStepOwner::Maintainer,
        c,
        company,
    )
}

/// Whether the list of company changes carries the identifier.
fn is_company(company_ids: &Vec<u64>, id: u64) -> (r: bool)
    ensures
        r == company_ids@.contains(id),
{
    let mut i: usize = 0;
    while i < company_ids.len()
        invariant
            0 <= i <= company_ids@.len(),
            forall|j: int| 0 <= j < i ==> company_ids@[j] != id,
        decreases company_ids@.len() - i,
    {
        if company_ids[i] == id {
            return true;
        }
        i = i + 1;
    }
    false
}

/// One change's card; see `spec_card`.
fn card_html(e: &Change, company: bool, show_state: bool) -> (r: String)
    ensures
        r@ == spec_card(*e, company, show_state),
{
    let mut out = String::from_str("<div class=\"change-card");
    if company {
        out.append(" company-change");
    } else {
        out.append("");
    }
    out.append("\">\n");
    out.append("<div class=\"project-name\">");
    out.append(e.change.project.as_str());
    out.append("</div>\n");
    if show_state {
        out.append("<div class=\"review-state\">");
        let state = e.review_state.describe();
        out.append(state.as_str());
        out.append("</div>\n");
    } else {
        out.append("");
    }
    out.append("<div class=\"subject\">");
    out.append(e.change.subject.as_str());
    out.append("</div>\n");
    out.append("<a class=\"gerrit-link\" href=\"https://gerrit.openbmc.org/c/");
    out.append(e.change.project.as_str());
    out.append("/+/");
    let number = u64_to_string(e.change.id_number);
    out.append(number.as_str());
    out.append("\">View in Gerrit</a>\n");
    out.append("</div>\n");
    proof {
        assert(out@ =~= spec_card(*e, company, show_state));
    }
    out
}

/// The cards of the listed identifiers; see `spec_cards`.
fn cards_html(
    ids: &Vec<u64>,
    container: &Container,
    company_ids: &Vec<u64>,
    show_state: bool,
) -> (r: String)
    requires
        container.wf(),
    ensures
        r@ == spec_cards(ids@, *container, company_ids@, show_state),
{
    let mut out = String::new();
    let mut i: usize = 0;
    proof {
        assert(ids@.take(0) =~= Seq::empty());
    }
    while i < ids.len()
        invariant
            0 <= i <= ids@.len(),
            container.wf(),
            out@ == spec_cards(ids@.take(i as int), *container, company_ids@, show_state),
        decreases ids@.len() - i,
    {
        let id = ids[i];
        match container.get(id) {
            Some(e) => {
                let company = is_company(company_ids, id);
                let card = card_html(e, company, show_state);
                out.append(card.as_str());
            },
            None => {},
        }
        proof {
            assert(ids@.take(i as int + 1).drop_last() =~= ids@.take(i as int));
            assert(ids@.take(i as int + 1).last() == ids@[i as int]);
            assert(out@ =~= spec_cards(
                ids@.take(i as int + 1),
                *container,
                company_ids@,
                show_state,
            ));
        }
        i = i + 1;
    }
    proof {
        assert(ids@.take(ids@.len() as int) =~= ids@);
    }
    out
}

/// One bucket's section; see `spec_interval_section`.
fn interval_section_html(
    changes: &ChangesByOwnerAndTime,
    ti: TimeInterval,
    who: NextStepOwner,
    container: &Container,
    company_ids: &Vec<u64>,
    show_state: bool,
) -> (r: String)
    requires
        container.wf(),
    ensures
        r@ == spec_interval_section(*changes, ti, who, *container, company_ids@, show_state),
{
    let ids = changes.get_changes(ti, who);
    proof {
        lemma_sorted_result(changes.ids(ti, who), ids@);
    }
    if ids.len() == 0 {
        return String::new();
    }
    let mut out = String::from_str("<div class=\"interval-section\">\n<h3 class=\"interval-header\">");
    let label = ti.to_text();
    out.append(label.as_str());
    out.append("</h3>\n");
    out.append("<div class=\"card-container\">\n");
    let cards = cards_html(&ids, container, company_ids, show_state);
    out.append(cards.as_str());
    out.append("</div>\n");
    out.append("</div>\n");
    proof {
        assert(out@ =~= spec_interval_section(
            *changes,
            ti,
            who,
            *container,
            company_ids@,
            show_state,
        ));
    }
    out
}

/// One party's section; see `spec_owner_section`.
fn owner_section_html(
    changes: &ChangesByOwnerAndTime,
    who: NextStepOwner,
    container: &Container,
    company_ids: &Vec<u64>,
) -> (r: String)
    requires
        container.wf(),
    ensures
        r@ == spec_owner_section(*changes, who, *container, company_ids@),
{
    let has_changes = changes.get_count(TimeInterval::Under24Hours, who) != 0
        || changes.get_count(TimeInterval::Under72Hours, who) != 0 || changes.get_count(
        TimeInterval::Under2Weeks,
        who,
    ) != 0 || changes.get_count(TimeInterval::Under8Weeks, who) != 0 || changes.get_count(
        TimeInterval::Over8Weeks,
        who,
    ) != 0;
    if !has_changes {
        return String::new();
    }
    let show_state = matches!(who, NextStepOwner::Author);
    let title: &'static str = match who {
        NextStepOwner::Author => "Author",
        NextStepOwner::Community => "Community",
        NextStepOwner::Maintainer => "Maintainer",
    };
    let section_id: &'static str = match who {
        NextStepOwner::Author => "author",
        NextStepOwner::Community => "community",
        NextStepOwner::Maintainer => "maintainer",
    };
    let mut out = String::from_str("\n<h2>\n    <button class=\"twisty\" onclick=\"toggleSection('");
    out.append(section_id);
    out.append("')\" aria-label=\"Toggle section\"></button> ");
    out.append(title);
    out.append("\n</h2>\n<div id=\"");
    out.append(section_id);
    out.append("-section\">\n");
    let s24 = interval_section_html(
        changes,
        TimeInterval::Under24Hours,
        who,
        container,
        company_ids,
        show_state,
    );
    out.append(s24.as_str());
    let s72 = interval_section_html(
        changes,
        TimeInterval::Under72Hours,
        who,
        container,
        company_ids,
        show_state,
    );
    out.append(s72.as_str());
    let s2w = interval_section_html(
        changes,
        TimeInterval::Under2Weeks,
        who,
        container,
        company_ids,
        show_state,
    );
    out.append(s2w.as_str());
    let s8w = interval_section_html(
        changes,
        TimeInterval::Under8Weeks,
        who,
        container,
        company_ids,
        show_state,
    );
    out.append(s8w.as_str());
    let so8 = interval_section_html(
        changes,
        TimeInterval::Over8Weeks,
        who,
        container,
        company_ids,
        show_state,
    );
    out.append(so8.as_str());
    out.append("</div>\n");
    proof {
        assert(out@ =~= spec_owner_section(*changes, who, *container, company_ids@));
    }
    out
}

/// The HTML list of tracked changes, grouped by responsible party and
/// time bucket. `company_ids` names the changes the community filter
/// rejects; their cards are marked. The author's section is shown only
/// where asked for.
pub fn list_of_changes(
    changes: &ChangesByOwnerAndTime,
    container: &Container,
    include_author: bool,
    company_ids: &Vec<u64>,
) -> (r: String)
    requires
        container.wf(),
    ensures
        r@ == spec_list_of_changes(*changes, *container, include_author, company_ids@),
{
    let mut out = String::new();
    if include_author {
        let sect = owner_section_html(changes, NextStepOwner::Author, container, company_ids);
        out.append(sect.as_str());
    }
    let sect = owner_section_html(changes, NextStepOwner::Community, container, company_ids);
    out.append(sect.as_str());
    let sect = owner_section_html(changes, NextStepOwner::Maintainer, container, company_ids);
    out.append(sect.as_str());
    proof {
        assert(out@ =~= spec_list_of_changes(
            *changes,
            *container,
            include_author,
            company_ids@,
        ));
    }
    out
}

/// The identifier lists of an aggregation built from the store under the
/// given filters.
pub open spec fn spec_agg_matches(
    agg: ChangesByOwnerAndTime,
    s: Seq<Change>,
    project: Option<String>,
    owner: Option<String>,
    now: i64,
) -> bool {
    forall|ti: TimeInterval, who: NextStepOwner|
        #[trigger] agg.ids(ti, who) == spec_bucket_ids(s, project, owner, now, ti, who)
}

/// The front page: the overall table, and the list without the authors'
/// section.
pub fn report_overall(container: &Container, now: i64, company_ids: &Vec<u64>) -> (t:
    OverallTemplate)
    requires
        container.wf(),
    ensures
        t.report_text@ == table_text(
            spec_report_header(),
            spec_time_report_rows(container.changes@, None, None, now),
        ),
        exists|agg: ChangesByOwnerAndTime|
            {
                &&& #[trigger] spec_agg_matches(agg, container.changes@, None, None, now)
                &&& t.changes_text@ == spec_list_of_changes(
                    agg,
                    *container,
                    false,
                    company_ids@,
                )
            },
{
    let changes = changes_by_owner_time(container, now, None, None);
    let report_text = crate::report::report_by_owner_time(&changes);
    let changes_text = list_of_changes(&changes, container, false, company_ids);
    proof {
        assert(crate::report::spec_time_rows(changes) =~~= spec_time_report_rows(
            container.changes@,
            None,
            None,
            now,
        ));
        assert(spec_agg_matches(changes, container.changes@, None, None, now));
    }
    OverallTemplate { report_text, changes_text }
}

/// One project's page: its table and list, filtered to the project.
pub fn report_project(container: &Container, now: i64, project: String, company_ids: &Vec<u64>)
    -> (t: ProjectTemplate)
    requires
        container.wf(),
    ensures
        t.project == project,
        t.report_text@ == table_text(
            spec_report_header(),
            spec_time_report_rows(container.changes@, Some(project), None, now),
        ),
        exists|agg: ChangesByOwnerAndTime|
            {
                &&& #[trigger] spec_agg_matches(
                    agg,
                    container.changes@,
                    Some(project),
                    None,
                    now,
                )
                &&& t.changes_text@ == spec_list_of_changes(
                    agg,
                    *container,
                    false,
                    company_ids@,
                )
            },
{
    let changes = changes_by_owner_time(container, now, Some(project.clone()), None);
    let report_text = crate::report::report_by_owner_time(&changes);
    let changes_text = list_of_changes(&changes, container, false, company_ids);
    proof {
        assert(crate::report::spec_time_rows(changes) =~~= spec_time_report_rows(
            container.changes@,
            Some(project),
            None,
            now,
        ));
        assert(spec_agg_matches(changes, container.changes@, Some(project), None, now));
    }
    ProjectTemplate { project, report_text, changes_text }
}

/// One author's page: their table and list, the authors' section
/// included.
pub fn report_user(container: &Container, now: i64, username: String, company_ids: &Vec<u64>)
    -> (t: UserTemplate)
    requires
        container.wf(),
    ensures
        t.username == username,
        t.report_text@ == table_text(
            spec_report_header(),
            spec_time_report_rows(container.changes@, None, Some(username), now),
        ),
        exists|agg: ChangesByOwnerAndTime|
            {
                &&& #[trigger] spec_agg_matches(
                    agg,
                    container.changes@,
                    None,
                    Some(username),
                    now,
                )
                &&& t.changes_text@ == spec_list_of_changes(agg, *container, true, company_ids@)
            },
{
    let changes = changes_by_owner_time(container, now, None, Some(username.clone()));
    let report_text = crate::report::report_by_owner_time(&changes);
    let changes_text = list_of_changes(&changes, container, true, company_ids);
    proof {
        assert(crate::report::spec_time_rows(changes) =~~= spec_time_report_rows(
            container.changes@,
            None,
            Some(username),
            now,
        ));
        assert(spec_agg_matches(changes, container.changes@, None, Some(username), now));
    }
    UserTemplate { username, report_text, changes_text }
}

/// One change's status page: its state and its link when the text names
/// a tracked change, the not-found page otherwise.
pub fn review_status(container: &Container, change_id: String) -> (r: Result<
    ChangeTemplate,
    ChangeNotFoundTemplate,
>)
    requires
        container.wf(),
    ensures
        match spec_text_lookup(*container, change_id@) {
            Some(e) => r matches Ok(t) && t.change_id == change_id && t.review_status@
                == spec_describe(e.review_state) && t.gerrit_url@
                == "https://gerrit.openbmc.org/c/"@ + e.change.project@ + "/+/"@ + spec_decimal(
                e.change.id_number as nat,
            ),
            None => r matches Err(t) && t.change_id == change_id,
        },
{
    match container.lookup_by_text(&change_id) {
        Some(e) => {
            let review_status = e.review_state.describe();
            let mut gerrit_url = String::from_str("https://gerrit.openbmc.org/c/");
            gerrit_url.append(e.change.project.as_str());
            gerrit_url.append("/+/");
            let number = u64_to_string(e.change.id_number);
            gerrit_url.append(number.as_str());
            Ok(ChangeTemplate { change_id, review_status, gerrit_url })
        },
        None => Err(ChangeNotFoundTemplate { change_id }),
    }
}

} // verus!
