//! What is posted to the chat channel: a paper with its summary, and the cost
//! report of a day.

use crate::model::config::Config;
use crate::model::gcp_cost::{CostReport, ServiceReport, ServiceToCostReportMap};
use crate::model::openai::{Engine, PaperSummaryModel};
use crate::model::paper::{on_one_line, PaperModel};
use std::sync::Arc;
use vstd::prelude::*;
use vstd::string::StringExecFns;

verus! {

/// The first `n` sentences of a summary, each on a line of its own behind a bullet.
pub open spec fn bullets(sentences: Seq<String>, n: nat) -> Seq<char>
    decreases n,
{
    if n == 0 {
        Seq::empty()
    } else {
        bullets(sentences, (n - 1) as nat) + " \u{2022} "@ + sentences[n - 1]@ + "\n"@
    }
}

/// The body of the message on a paper: the retold title in bold, then the
/// sentences of the summary as bullets.
pub open spec fn summary_text(answer: PaperSummaryModel) -> Seq<char> {
    "*"@ + answer.title@ + "*\n"@ + bullets(answer.summary@, answer.summary@.len())
}

/// The line below a message on a paper: which model wrote and where the job ran.
pub open spec fn paper_footer(engine: Engine, platform: Seq<char>) -> Seq<char> {
    "Powered by "@ + engine.spec_name() + "  / Running on "@ + platform + "\n"@
}

/// The message that presents one paper.
#[derive(Debug, Clone, PartialEq, Eq)]
pub struct PaperMessage {
    pub channel: String,
    pub color: String,
    pub title: String,
    pub title_link: String,
    pub text: String,
    pub footer: String,
}

/// `a` stands before `b` in a dictionary whose letters are ordered by their
/// numbers in Unicode.
pub open spec fn text_before(a: Seq<char>, b: Seq<char>) -> bool
    decreases a.len(),
{
    if b.len() == 0 {
        false
    } else if a.len() == 0 {
        true
    } else if a[0] != b[0] {
        (a[0] as int) < (b[0] as int)
    } else {
        text_before(a.drop_first(), b.drop_first())
    }
}

/// Of two different texts one stands before the other.
pub proof fn lemma_text_order_total(a: Seq<char>, b: Seq<char>)
    requires
        a != b,
    ensures
        text_before(a, b) || text_before(b, a),
    decreases a.len(),
{
    if a.len() == 0 || b.len() == 0 {
        if a.len() == 0 && b.len() == 0 {
            assert(a =~= b);
        }
    } else if a[0] == b[0] {
        if a.drop_first() == b.drop_first() {
            assert(a =~= seq![a[0]] + a.drop_first());
            assert(b =~= seq![b[0]] + b.drop_first());
        }
        lemma_text_order_total(a.drop_first(), b.drop_first());
    }
}

/// What stands before a text stands before all that the text stands before.
pub proof fn lemma_text_order_transitive(a: Seq<char>, b: Seq<char>, c: Seq<char>)
    requires
        text_before(a, b),
        text_before(b, c),
    ensures
        text_before(a, c),
    decreases a.len(),
{
    if a.len() > 0 && a[0] == b[0] && b[0] == c[0] {
        lemma_text_order_transitive(a.drop_first(), b.drop_first(), c.drop_first());
    }
}

/// Compares two strings with `<`, as std orders `str`: by their bytes, which for
/// UTF-8 is the order of the characters' numbers in Unicode, a proper beginning
/// of a text standing before the text.
#[verifier::external_body]
fn str_before(a: &str, b: &str) -> (r: bool)
    ensures
        r == text_before(a@, b@),
{
    a < b
}

/// One line of the cost report: a service, what it cost, and the rate against
/// the day before.
#[derive(Debug, Clone, PartialEq, Eq)]
pub struct CostField {
    pub title: String,
    pub report: CostReport,
}

/// The fields rise strictly in the order of their titles.
pub open spec fn rising(fields: Seq<CostField>) -> bool {
    forall|i: int, j: int|
        0 <= i < j < fields.len() ==> text_before(
            (#[trigger] fields[i]).title@,
            (#[trigger] fields[j]).title@,
        )
}

/// Some field is the report on `service`.
pub open spec fn shows(fields: Seq<CostField>, service: Seq<char>, report: CostReport) -> bool {
    exists|j: int|
        0 <= j < fields.len() && (#[trigger] fields[j]).title@ == service && fields[j].report
            == report
}

/// One of the first `k` reports is on `service`.
pub open spec fn named_among(entries: Seq<ServiceReport>, k: int, service: Seq<char>) -> bool {
    exists|m: int| 0 <= m < k && (#[trigger] entries[m]).service@ == service
}

/// Putting a field where all before it stand before it, and it stands before
/// the next, keeps the fields rising.
pub proof fn lemma_insert_keeps_rising(fields: Seq<CostField>, p: int, field: CostField)
    requires
        rising(fields),
        0 <= p <= fields.len(),
        forall|q: int| 0 <= q < p ==> text_before((#[trigger] fields[q]).title@, field.title@),
        p < fields.len() ==> text_before(field.title@, fields[p].title@),
    ensures
        rising(fields.insert(p, field)),
{
    let after = fields.insert(p, field);
    assert forall|i: int, j: int| 0 <= i < j < after.len() implies text_before(
        (#[trigger] after[i]).title@,
        (#[trigger] after[j]).title@,
    ) by {
        if j < p {
            assert(after[i] == fields[i] && after[j] == fields[j]);
        } else if j == p {
            assert(after[i] == fields[i]);
        } else if i < p {
            assert(after[i] == fields[i] && after[j] == fields[j - 1]);
        } else if i == p {
            assert(after[j] == fields[j - 1]);
            if j - 1 > p {
                assert(text_before(fields[p].title@, fields[j - 1].title@));
                lemma_text_order_transitive(field.title@, fields[p].title@, fields[j - 1].title@);
            }
        } else {
            assert(after[i] == fields[i - 1] && after[j] == fields[j - 1]);
        }
    }
}

/// Puts `field` into `fields` where its title belongs, and says where that is.
pub fn insert_field(fields: &mut Vec<CostField>, field: CostField) -> (p: usize)
    requires
        rising(old(fields)@),
        forall|q: int| 0 <= q < old(fields)@.len() ==> (#[trigger] old(fields)@[q]).title@ != field.title@,
    ensures
        p <= old(fields)@.len(),
        final(fields)@ == old(fields)@.insert(p as int, field),
        rising(final(fields)@),
{
    let mut p: usize = 0;
    while p < fields.len() && !str_before(field.title.as_str(), fields[p].title.as_str())
        invariant
            p <= fields@.len(),
            fields@ == old(fields)@,
            forall|q: int| 0 <= q < fields@.len() ==> (#[trigger] fields@[q]).title@ != field.title@,
            forall|q: int| 0 <= q < p ==> text_before((#[trigger] fields@[q]).title@, field.title@),
        decreases fields@.len() - p,
    {
        proof {
            lemma_text_order_total(fields@[p as int].title@, field.title@);
        }
        p += 1;
    }
    proof {
        lemma_insert_keeps_rising(fields@, p as int, field);
    }
    fields.insert(p, field);
    p
}

/// The line that names the project.
pub open spec fn project_line(project: Seq<char>) -> Seq<char> {
    "Project:  "@ + project
}

/// The line below a cost report: where the numbers come from and where the job ran.
pub open spec fn cost_footer(table: Seq<char>, platform: Seq<char>) -> Seq<char> {
    "Data sourced from "@ + table + " / Running on "@ + platform + "\n"@
}

/// The remark that closes a cost report.
pub open spec fn cost_remark() -> Seq<char> {
    "\n_\u{203b} Cost from 09:00 JST to 09:00 JST the following day (compared to the previous day)._"@
}

/// The cost report of one day, ready to be written out: numbers stay numbers,
/// texts are complete.
#[derive(Debug, Clone, PartialEq, Eq)]
pub struct CostMessage {
    pub channel: String,
    pub color: String,
    pub title: String,
    pub project: String,
    pub monthly_total: i128,
    pub daily_total: i128,
    pub fields: Vec<CostField>,
    pub remark: String,
    pub footer: String,
}

/// The chat client, as far as it computes.
pub struct SlackClient {
    pub config: Arc<Config>,
}

impl SlackClient {
    pub fn new(config: Arc<Config>) -> (r: Self)
        ensures
            r.config == config,
    {
        Self { config }
    }

    /// The lines of the cost report: one for each service reported on, in the
    /// order of the services' names.
    pub fn cost_fields(&self, service_to_cost: &ServiceToCostReportMap) -> (r: Vec<CostField>)
        requires
            service_to_cost.wf(),
        ensures
            r@.len() == service_to_cost.entries@.len(),
            rising(r@),
            forall|k: int|
                0 <= k < service_to_cost.entries@.len() ==> shows(
                    r@,
                    (#[trigger] service_to_cost.entries@[k]).service@,
                    service_to_cost.entries@[k].report,
                ),
    {
        let entries = &service_to_cost.entries;
        let mut fields: Vec<CostField> = Vec::new();
        let mut k: usize = 0;
        while k < entries.len()
            invariant
                service_to_cost.wf(),
                entries == &service_to_cost.entries,
                k <= entries@.len(),
                fields@.len() == k,
                rising(fields@),
                forall|m: int|
                    0 <= m < k ==> shows(fields@, (#[trigger] entries@[m]).service@, entries@[m].report),
                forall|j: int|
                    0 <= j < fields@.len() ==> named_among(entries@, k as int, (#[trigger] fields@[j]).title@),
            decreases entries@.len() - k,
        {
            let entry = &entries[k];
            let field = CostField { title: entry.service.clone(), report: entry.report };
            let ghost before = fields@;
            proof {
                assert forall|q: int| 0 <= q < before.len() implies (#[trigger] before[q]).title@
                    != field.title@ by {
                    let m = choose|m: int|
                        0 <= m < k && (#[trigger] entries@[m]).service@ == before[q].title@;
                    assert(entries@[m].service@ != entries@[k as int].service@);
                }
            }
            let p = insert_field(&mut fields, field);
            proof {
                assert forall|m: int| 0 <= m < k + 1 implies shows(
                    fields@,
                    (#[trigger] entries@[m]).service@,
                    entries@[m].report,
                ) by {
                    if m < k {
                        let j = choose|j: int|
                            0 <= j < before.len() && (#[trigger] before[j]).title@
                                == entries@[m].service@ && before[j].report == entries@[m].report;
                        if j < p {
                            assert(fields@[j] == before[j]);
                        } else {
                            assert(fields@[j + 1] == before[j]);
                        }
                    } else {
                        assert(fields@[p as int].title@ == entries@[m].service@);
                    }
                }
                assert forall|j: int| 0 <= j < fields@.len() implies named_among(
                    entries@,
                    k + 1,
                    (#[trigger] fields@[j]).title@,
                ) by {
                    if j == p {
                        assert(entries@[k as int].service@ == fields@[j].title@);
                    } else {
                        let was = if j < p {
                            j
                        } else {
                            j - 1
                        };
                        assert(fields@[j] == before[was]);
                        assert(named_among(entries@, k as int, before[was].title@));
                        let m = choose|m: int|
                            0 <= m < k && (#[trigger] entries@[m]).service@ == before[was].title@;
                        assert(entries@[m].service@ == fields@[j].title@);
                    }
                }
            }
            k += 1;
        }
        fields
    }

    /// The cost report of one day: a line for each service in the order of their
    /// names, what the day cost in all, and the sum of the month so far.
    pub fn post_daily_cost(&self, service_to_cost: &ServiceToCostReportMap, monthly_total: i128) -> (r:
        CostMessage)
        requires
            service_to_cost.wf(),
        ensures
            r.channel@ == self.config.slack_channel@,
            r.color@ == "#cdcdcd"@,
            r.title@ == "*Cost Report*"@,
            r.project@ == project_line(self.config.gcp_project_id@),
            r.monthly_total == monthly_total,
            r.daily_total == service_to_cost.total(),
            r.fields@.len() == service_to_cost.entries@.len(),
            rising(r.fields@),
            forall|k: int|
                0 <= k < service_to_cost.entries@.len() ==> shows(
                    r.fields@,
                    (#[trigger] service_to_cost.entries@[k]).service@,
                    service_to_cost.entries@[k].report,
                ),
            r.remark@ == cost_remark(),
            r.footer@ == cost_footer(self.config.gcp_bigquery_cost_table@, self.config.platform@),
    {
        let mut project = String::from_str("Project:  ");
        project.append(self.config.gcp_project_id.as_str());
        let mut footer = String::from_str("Data sourced from ");
        footer.append(self.config.gcp_bigquery_cost_table.as_str());
        footer.append(" / Running on ");
        footer.append(self.config.platform.as_str());
        footer.append("\n");
        CostMessage {
            channel: self.config.slack_channel.clone(),
            color: String::from_str("#cdcdcd"),
            title: String::from_str("*Cost Report*"),
            project,
            monthly_total,
            daily_total: service_to_cost.total_cost(),
            fields: self.cost_fields(service_to_cost),
            remark: String::from_str(
                "\n_\u{203b} Cost from 09:00 JST to 09:00 JST the following day (compared to the previous day)._",
            ),
            footer,
        }
    }

    /// The message that presents `paper` with the summary `answer`, which
    /// `engine` wrote. The paper's title heads it on one line, every line break
    /// turned into a space.
    pub fn post_message(&self, paper: &PaperModel, answer: &PaperSummaryModel, engine: &Engine) -> (r:
        PaperMessage)
        ensures
            r.channel@ == self.config.slack_channel@,
            r.color@ == "#3560a6"@,
            r.title@ == on_one_line(paper.title@),
            r.title_link@ == paper.url@,
            r.text@ == summary_text(*answer),
            r.footer@ == paper_footer(*engine, self.config.platform@),
    {
        let mut text = String::from_str("*");
        text.append(answer.title.as_str());
        text.append("*\n");
        let mut i: usize = 0;
        while i < answer.summary.len()
            invariant
                i <= answer.summary@.len(),
                text@ == "*"@ + answer.title@ + "*\n"@ + bullets(answer.summary@, i as nat),
            decreases answer.summary@.len() - i,
        {
            text.append(" \u{2022} ");
            text.append(answer.summary[i].as_str());
            text.append("\n");
            assert(text@ =~= "*"@ + answer.title@ + "*\n"@ + bullets(answer.summary@, (i + 1) as nat));
            i += 1;
        }
        let mut footer = String::from_str("Powered by ");
        footer.append(engine.name());
        footer.append("  / Running on ");
        footer.append(self.config.platform.as_str());
        footer.append("\n");
        PaperMessage {
            channel: self.config.slack_channel.clone(),
            color: String::from_str("#3560a6"),
            title: paper.tidied().title,
            title_link: paper.url.clone(),
            text,
            footer,
        }
    }
}

} // verus!
