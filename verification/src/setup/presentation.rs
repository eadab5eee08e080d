//! Deterministic human-facing rendering of Setup, Doctor and Status reports.

use vstd::prelude::*;

use super::{
    activity_views, step_name, without_verbatim, ActivityReport, ActivityView, ReportView,
    SetupReport, StatusReport, StepReport, StepStatus, StepView, human_windows_path,
};
use crate::ordered::string_views;
use crate::text::{decimal, decimal_text, push_char};

verus! {

/// A line of text: the text and a line feed.
pub open spec fn line(s: Seq<char>) -> Seq<char> {
    s.push('\n')
}

pub open spec fn spaces(n: nat) -> Seq<char> {
    Seq::new(n, |i: int| ' ')
}

/// The text left-aligned in a field of `width` characters.
pub open spec fn pad(s: Seq<char>, width: nat) -> Seq<char> {
    if s.len() < width {
        s + spaces((width - s.len()) as nat)
    } else {
        s
    }
}

pub open spec fn status_label(s: StepStatus) -> Seq<char> {
    match s {
        StepStatus::Ready => "ready"@,
        StepStatus::Changed => "changed"@,
        StepStatus::Planned => "planned"@,
        StepStatus::Missing => "missing"@,
    }
}

/// Some step of the report has the status.
pub open spec fn any_step(steps: Seq<StepView>, status: StepStatus) -> bool {
    exists|i: int| 0 <= i < steps.len() && (#[trigger] steps[i]).status == status
}

/// The one-word state of a report: attention first, then a plan, then a change.
pub open spec fn overall(r: ReportView) -> Seq<char> {
    if !r.healthy || any_step(r.steps, StepStatus::Missing) {
        "needs attention"@
    } else if any_step(r.steps, StepStatus::Planned) {
        "planned"@
    } else if any_step(r.steps, StepStatus::Changed) {
        "changed"@
    } else {
        "ready"@
    }
}

pub open spec fn step_line(s: StepView) -> Seq<char> {
    line("  "@ + pad(status_label(s.status), 8) + " "@ + pad(step_name(s.step), 12) + " "@ + s.message)
}

pub open spec fn steps_text(steps: Seq<StepView>) -> Seq<char>
    decreases steps.len(),
{
    if steps.len() == 0 {
        Seq::empty()
    } else {
        steps_text(steps.drop_last()) + step_line(steps.last())
    }
}

pub open spec fn system_text(r: ReportView) -> Seq<char> {
    line("System"@) + steps_text(r.steps)
}

/// The one next action a Setup or Doctor report suggests, if any.
pub open spec fn setup_next(r: ReportView) -> Option<Seq<char>> {
    if r.restart_codex {
        Some("restart Codex, then review and trust the Gareji Progress Stop Hook."@)
    } else if any_step(r.steps, StepStatus::Planned) {
        Some("rerun this command without --dry-run to apply the setup."@)
    } else if !r.healthy {
        Some("run `gareji setup` to repair the missing layers, then rerun `gareji doctor`."@)
    } else if r.project_id is Some {
        Some("work in Codex, then run `gareji status` from the project workspace."@)
    } else {
        None
    }
}

pub open spec fn next_text(next: Option<Seq<char>>) -> Seq<char> {
    match next {
        Some(n) => line(Seq::empty()) + line("Next: "@ + n),
        None => Seq::empty(),
    }
}

/// The rendering of a Setup or Doctor report.
pub open spec fn setup_text(r: ReportView) -> Seq<char> {
    line("Gareji"@) + match r.project_id {
        Some(p) => line("Project: "@ + p),
        None => Seq::empty(),
    } + line("Status: "@ + overall(r)) + line(Seq::empty()) + system_text(r) + next_text(setup_next(r))
}

/// Abstract value of a status report.
pub struct StatusReportView {
    pub project_id: Seq<char>,
    pub project_name: Seq<char>,
    pub workspace: Seq<char>,
    pub context_references: usize,
    pub health: ReportView,
    pub recent_activity: Seq<ActivityView>,
}

impl View for StatusReport {
    type V = StatusReportView;

    open spec fn view(&self) -> StatusReportView {
        StatusReportView {
            project_id: self.project_id@,
            project_name: self.project_name@,
            workspace: self.workspace@,
            context_references: self.context_references,
            health: self.health@,
            recent_activity: activity_views(self.recent_activity@),
        }
    }
}

/// The one next action a Status report suggests, if any.
pub open spec fn status_next(r: StatusReportView) -> Option<Seq<char>> {
    if !r.health.healthy {
        Some("run `gareji setup` for this workspace, then rerun `gareji status`."@)
    } else if r.recent_activity.len() == 0 {
        Some("complete a Codex turn in this workspace."@)
    } else {
        None
    }
}

pub open spec fn paths_text(paths: Seq<Seq<char>>) -> Seq<char>
    decreases paths.len(),
{
    if paths.len() == 0 {
        Seq::empty()
    } else {
        paths_text(paths.drop_last()) + line("      "@ + paths.last())
    }
}

/// The changed paths of an activity: at most five, then how many more there are.
pub open spec fn changed_text(paths: Seq<Seq<char>>) -> Seq<char> {
    if paths.len() == 0 {
        Seq::empty()
    } else {
        line("    Changed"@) + paths_text(
            if paths.len() <= 5 {
                paths
            } else {
                paths.take(5)
            },
        ) + if paths.len() > 5 {
            line("      ... and "@ + decimal((paths.len() - 5) as nat) + " more"@)
        } else {
            Seq::empty()
        }
    }
}

pub open spec fn activity_text(a: ActivityView) -> Seq<char> {
    line("  "@ + a.recorded_at + "  "@ + a.outcome) + line("    "@ + a.summary) + changed_text(a.changed_paths)
}

pub open spec fn activities_text(v: Seq<ActivityView>) -> Seq<char>
    decreases v.len(),
{
    if v.len() == 0 {
        Seq::empty()
    } else {
        activities_text(v.drop_last()) + activity_text(v.last())
    }
}

/// The rendering of a Status report.
pub open spec fn status_text(r: StatusReportView) -> Seq<char> {
    line(r.project_name) + line("Project: "@ + r.project_id) + line("Workspace: "@ + without_verbatim(r.workspace))
        + line("Context references: "@ + decimal(r.context_references as nat)) + line("Status: "@ + overall(r.health))
        + line(Seq::empty()) + system_text(r.health) + line(Seq::empty()) + line("Recent activity"@)
        + if r.recent_activity.len() == 0 {
        line("  No activity recorded."@)
    } else {
        activities_text(r.recent_activity)
    } + next_text(status_next(r))
}

fn append_text(out: &mut String, s: &str)
    ensures
        final(out)@ == old(out)@ + s@,
{
    out.append(s);
}

fn end_line(out: &mut String)
    ensures
        final(out)@ == old(out)@.push('\n'),
{
    push_char(out, '\n');
}

fn add_padded(out: &mut String, s: &str, width: usize)
    ensures
        final(out)@ == old(out)@ + pad(s@, width as nat),
{
    append_text(out, s);
    let n = crate::text::char_len(s);
    let mut k = n;
    while k < width
        invariant
            n == s@.len(),
            n <= k,
            n < width ==> k <= width,
            width <= n ==> k == n,
            out@ == old(out)@ + s@ + spaces((k - n) as nat),
        decreases width - k,
    {
        push_char(out, ' ');
        assert(spaces((k + 1 - n) as nat) =~= spaces((k - n) as nat).push(' '));
        assert(old(out)@ + s@ + spaces((k + 1 - n) as nat) =~= (old(out)@ + s@ + spaces((k - n) as nat)).push(' '));
        k = k + 1;
    }
    proof {
        if n < width {
            assert(k == width);
            assert(old(out)@ + pad(s@, width as nat) =~= old(out)@ + s@ + spaces((width - n) as nat));
            assert(out@ =~= old(out)@ + pad(s@, width as nat));
        } else {
            assert(spaces(0) =~= Seq::<char>::empty());
            assert(old(out)@ + s@ + spaces(0) =~= old(out)@ + s@);
            assert(k == n);
            assert(pad(s@, width as nat) == s@);
            assert(out@ =~= old(out)@ + pad(s@, width as nat));
        }
    }
}

fn step_status_label(status: StepStatus) -> (r: &'static str)
    ensures
        r@ == status_label(status),
{
    match status {
        StepStatus::Ready => "ready",
        StepStatus::Changed => "changed",
        StepStatus::Planned => "planned",
        StepStatus::Missing => "missing",
    }
}

fn has_status(steps: &Vec<StepReport>, status: StepStatus) -> (r: bool)
    ensures
        r == any_step(super::step_views(steps@), status),
{
    let ghost v = super::step_views(steps@);
    let mut i: usize = 0;
    while i < steps.len()
        invariant
            i <= steps@.len(),
            v == super::step_views(steps@),
            forall|j: int| 0 <= j < i ==> v[j].status != status,
        decreases steps@.len() - i,
    {
        if steps[i].status == status {
            assert(v[i as int].status == status);
            return true;
        }
        i = i + 1;
    }
    false
}

fn overall_status(report: &SetupReport) -> (r: &'static str)
    ensures
        r@ == overall(report@),
{
    if !report.healthy || has_status(&report.steps, StepStatus::Missing) {
        "needs attention"
    } else if has_status(&report.steps, StepStatus::Planned) {
        "planned"
    } else if has_status(&report.steps, StepStatus::Changed) {
        "changed"
    } else {
        "ready"
    }
}

fn write_system(out: &mut String, report: &SetupReport)
    ensures
        final(out)@ == old(out)@ + system_text(report@),
{
    append_text(out, "System");
    end_line(out);
    let ghost v = report@.steps;
    let ghost start = out@;
    let mut i: usize = 0;
    assert(v.take(0) =~= Seq::<StepView>::empty());
    while i < report.steps.len()
        invariant
            i <= report.steps@.len(),
            v == report@.steps,
            out@ == start + steps_text(v.take(i as int)),
        decreases report.steps@.len() - i,
    {
        let s = &report.steps[i];
        assert(v[i as int] == s@);
        append_text(out, "  ");
        add_padded(out, step_status_label(s.status), 8);
        append_text(out, " ");
        add_padded(out, s.step.as_str(), 12);
        append_text(out, " ");
        append_text(out, s.message.as_str());
        end_line(out);
        assert(v.take(i + 1).drop_last() =~= v.take(i as int));
        i = i + 1;
    }
    assert(v.take(v.len() as int) =~= v);
    assert(start =~= old(out)@ + line("System"@));
}

fn setup_next_action(report: &SetupReport) -> (r: Option<&'static str>)
    ensures
        match r {
            Some(s) => setup_next(report@) == Some(s@),
            None => setup_next(report@) is None,
        },
{
    if report.restart_codex {
        Some("restart Codex, then review and trust the Gareji Progress Stop Hook.")
    } else if has_status(&report.steps, StepStatus::Planned) {
        Some("rerun this command without --dry-run to apply the setup.")
    } else if !report.healthy {
        Some("run `gareji setup` to repair the missing layers, then rerun `gareji doctor`.")
    } else if report.project_id.is_some() {
        Some("work in Codex, then run `gareji status` from the project workspace.")
    } else {
        None
    }
}

fn write_next(out: &mut String, next: Option<&str>)
    ensures
        final(out)@ == old(out)@ + next_text(
            match next {
                Some(s) => Some(s@),
                None => None,
            },
        ),
{
    if let Some(n) = next {
        end_line(out);
        append_text(out, "Next: ");
        append_text(out, n);
        end_line(out);
    } else {
        assert(old(out)@ + Seq::<char>::empty() =~= old(out)@);
    }
}

/// Render one Setup or Doctor report for a human-facing terminal.
pub fn render_setup_report(report: &SetupReport) -> (r: String)
    ensures
        r@ == setup_text(report@),
{
    let mut out = String::new();
    append_text(&mut out, "Gareji");
    end_line(&mut out);
    if let Some(project_id) = &report.project_id {
        append_text(&mut out, "Project: ");
        append_text(&mut out, project_id.as_str());
        end_line(&mut out);
    }
    append_text(&mut out, "Status: ");
    append_text(&mut out, overall_status(report));
    end_line(&mut out);
    end_line(&mut out);
    write_system(&mut out, report);
    write_next(&mut out, setup_next_action(report));
    proof {
        let r = report@;
        let head = line("Gareji"@) + match r.project_id {
            Some(p) => line("Project: "@ + p),
            None => Seq::empty(),
        };
        assert(out@ =~= head + line("Status: "@ + overall(r)) + line(Seq::empty()) + system_text(r) + next_text(setup_next(r)));
    }
    out
}

fn status_next_action(report: &StatusReport) -> (r: Option<&'static str>)
    ensures
        match r {
            Some(s) => status_next(report@) == Some(s@),
            None => status_next(report@) is None,
        },
{
    if !report.health.healthy {
        Some("run `gareji setup` for this workspace, then rerun `gareji status`.")
    } else if report.recent_activity.len() == 0 {
        Some("complete a Codex turn in this workspace.")
    } else {
        None
    }
}

fn write_activity(out: &mut String, a: &ActivityReport)
    ensures
        final(out)@ == old(out)@ + activity_text(a@),
{
    let ghost start = out@;
    append_text(out, "  ");
    append_text(out, a.recorded_at.as_str());
    append_text(out, "  ");
    append_text(out, a.outcome.as_str());
    end_line(out);
    append_text(out, "    ");
    append_text(out, a.summary.as_str());
    end_line(out);
    let ghost mid = out@;
    let n = a.changed_paths.len();
    let ghost paths = string_views(a.changed_paths@);
    if n > 0 {
        append_text(out, "    Changed");
        end_line(out);
        let shown = if n <= 5 {
            n
        } else {
            5
        };
        let ghost base = out@;
        let mut i: usize = 0;
        assert(paths.take(0) =~= Seq::<Seq<char>>::empty());
        while i < shown
            invariant
                shown <= n,
                n == a.changed_paths@.len(),
                paths == string_views(a.changed_paths@),
                i <= shown,
                out@ == base + paths_text(paths.take(i as int)),
            decreases shown - i,
        {
            append_text(out, "      ");
            append_text(out, a.changed_paths[i].as_str());
            end_line(out);
            assert(paths.take(i + 1).drop_last() =~= paths.take(i as int));
            i = i + 1;
        }
        proof {
            if n <= 5 {
                assert(paths.take(n as int) =~= paths);
            }
        }
        if n > 5 {
            append_text(out, "      ... and ");
            let count = decimal_text((n - 5) as u64);
            append_text(out, count.as_str());
            append_text(out, " more");
            end_line(out);
        }
        assert(out@ =~= mid + changed_text(paths));
    } else {
        assert(changed_text(paths) =~= Seq::<char>::empty());
    }
    assert(out@ =~= start + activity_text(a@));
}

/// Render one project-centered Status report for a human-facing terminal.
pub fn render_status_report(report: &StatusReport) -> (r: String)
    ensures
        r@ == status_text(report@),
{
    let mut out = String::new();
    append_text(&mut out, report.project_name.as_str());
    end_line(&mut out);
    append_text(&mut out, "Project: ");
    append_text(&mut out, report.project_id.as_str());
    end_line(&mut out);
    append_text(&mut out, "Workspace: ");
    let workspace = human_windows_path(report.workspace.as_str());
    append_text(&mut out, workspace.as_str());
    end_line(&mut out);
    append_text(&mut out, "Context references: ");
    let count = decimal_text(report.context_references as u64);
    append_text(&mut out, count.as_str());
    end_line(&mut out);
    append_text(&mut out, "Status: ");
    append_text(&mut out, overall_status(&report.health));
    end_line(&mut out);
    end_line(&mut out);
    write_system(&mut out, &report.health);
    end_line(&mut out);
    append_text(&mut out, "Recent activity");
    end_line(&mut out);
    let ghost before_activity = out@;
    let ghost acts = activity_views(report.recent_activity@);
    if report.recent_activity.len() == 0 {
        append_text(&mut out, "  No activity recorded.");
        end_line(&mut out);
    } else {
        let mut i: usize = 0;
        assert(acts.take(0) =~= Seq::<ActivityView>::empty());
        while i < report.recent_activity.len()
            invariant
                i <= report.recent_activity@.len(),
                acts == activity_views(report.recent_activity@),
                out@ == before_activity + activities_text(acts.take(i as int)),
            decreases report.recent_activity@.len() - i,
        {
            write_activity(&mut out, &report.recent_activity[i]);
            assert(acts.take(i + 1).drop_last() =~= acts.take(i as int));
            i = i + 1;
        }
        assert(acts.take(acts.len() as int) =~= acts);
    }
    let ghost before_next = out@;
    write_next(&mut out, status_next_action(report));
    proof {
        let r = report@;
        assert(out@ =~= status_text(r));
    }
    out
}

} // verus!
