//! The command that cleans: through the daemon where it runs, else on its own.
use vstd::prelude::*;

use crate::ipc::protocol::CleanParams;
use crate::numerals;
use crate::text;

verus! {

/// A line for the user.
#[derive(Debug, Clone)]
pub struct Line {
    pub to_stderr: bool,
    pub text: String,
}

/// A line, in terms of characters.
pub struct LineModel {
    pub to_stderr: bool,
    pub text: Seq<char>,
}

impl View for Line {
    type V = LineModel;

    open spec fn view(&self) -> LineModel {
        LineModel { to_stderr: self.to_stderr, text: self.text@ }
    }
}

/// A line on the usual output.
pub open spec fn out(text: Seq<char>) -> LineModel {
    LineModel { to_stderr: false, text }
}

/// A line on the output for errors.
pub open spec fn err(text: Seq<char>) -> LineModel {
    LineModel { to_stderr: true, text }
}

/// The lines of a list.
pub open spec fn line_models(lines: Seq<Line>) -> Seq<LineModel> {
    lines.map_values(|l: Line| l@)
}

/// Lines on the usual output.
pub open spec fn all_out(texts: Seq<Seq<char>>) -> Seq<LineModel> {
    texts.map_values(|t: Seq<char>| out(t))
}

/// Lines on the usual output.
pub fn out_lines(texts: Vec<String>) -> (r: Vec<Line>)
    ensures
        line_models(r@) == all_out(text::texts(texts@)),
{
    let mut r: Vec<Line> = Vec::new();
    let mut i: usize = 0;
    while i < texts.len()
        invariant
            i <= texts@.len(),
            r@.len() == i,
            forall|k: int| 0 <= k < i ==> (#[trigger] r@[k])@ == out(texts@[k]@),
        decreases texts@.len() - i,
    {
        r.push(Line { to_stderr: false, text: texts[i].as_str().to_owned() });
        i += 1;
    }
    assert(line_models(r@) =~= all_out(text::texts(texts@)));
    r
}

/// What a cleaning is to do: a deep one trims and compacts too.
pub fn clean_params(deep: bool, trim: bool, zram: bool, dry_run: bool) -> (r: CleanParams)
    ensures
        r == (CleanParams { deep, trim: trim || deep, zram_compact: zram || deep, dry_run }),
{
    CleanParams { deep, trim: trim || deep, zram_compact: zram || deep, dry_run }
}

/// How the daemon answered the request to clean.
#[derive(Debug, Clone)]
pub enum DaemonReply {
    JobAccepted { job_id: u64, message: String },
    Report,
    Message(String),
    Refused(String),
    Unexpected,
    /// It could not be reached.
    Unreachable(String),
}

/// How the daemon answered a question about a job.
#[derive(Debug, Clone)]
pub enum PollReply {
    Status { is_completed: bool, has_report: bool, state: String },
    Refused(String),
    Unreachable(String),
    Unexpected,
}

/// What comes next.
#[derive(Debug, Clone, Copy, PartialEq, Eq, Structural)]
pub enum CleanNext {
    /// Ask about this job.
    Poll(u64),
    /// Show the report that came with the answer.
    ShowReport,
    Finished,
}

/// What an answer leads to.
#[derive(Debug)]
pub struct CleanAnswer {
    pub lines: Vec<Line>,
    pub next: CleanNext,
}

/// What an answer leads to, in terms of characters.
pub struct AnswerModel {
    pub lines: Seq<LineModel>,
    pub next: CleanNext,
}

impl View for CleanAnswer {
    type V = AnswerModel;

    open spec fn view(&self) -> AnswerModel {
        AnswerModel { lines: line_models(self.lines@), next: self.next }
    }
}

/// A line for programs: one field and its text.
pub open spec fn json_field(name: Seq<char>, value: Seq<char>) -> Seq<char> {
    "{\""@ + name + "\": \""@ + value + "\"}"@
}

/// An error: for programs on the usual output, for people on the other.
pub open spec fn failure(json: bool, bare: Seq<char>, told: Seq<char>) -> Seq<LineModel> {
    if json {
        seq![out(json_field("error"@, bare))]
    } else {
        seq![err(told)]
    }
}

/// What the answer to a request to clean leads to, where the daemon runs as `pid`.
pub open spec fn reply_answer(reply: DaemonReply, pid: u32, json: bool) -> AnswerModel {
    match reply {
        DaemonReply::JobAccepted { job_id, message } => AnswerModel {
            lines: if json {
                Seq::empty()
            } else {
                seq![
                    out("[+] "@ + message@),
                    out(
                        "[*] Tracking progress for job #"@ + numerals::decimal(job_id as nat)
                            + "..."@,
                    ),
                ]
            },
            next: CleanNext::Poll(job_id),
        },
        DaemonReply::Report => AnswerModel {
            lines: if json {
                Seq::empty()
            } else {
                seq![out("[+] Clean job executed via Daemon IPC:"@)]
            },
            next: CleanNext::ShowReport,
        },
        DaemonReply::Message(msg) => AnswerModel {
            lines: if json {
                seq![out(json_field("message"@, msg@))]
            } else {
                seq![out("[+] Daemon message: "@ + msg@)]
            },
            next: CleanNext::Finished,
        },
        DaemonReply::Refused(msg) => AnswerModel {
            lines: failure(json, msg@, "[!] Daemon returned error: "@ + msg@),
            next: CleanNext::Finished,
        },
        DaemonReply::Unreachable(e) => AnswerModel {
            lines: failure(
                json,
                e@,
                "[!] Failed to communicate with daemon (PID: "@ + numerals::decimal(pid as nat)
                    + "): "@ + e@,
            ),
            next: CleanNext::Finished,
        },
        DaemonReply::Unexpected => AnswerModel {
            lines: failure(
                json,
                "Unexpected response from daemon"@,
                "[!] Unexpected response from daemon"@,
            ),
            next: CleanNext::Finished,
        },
    }
}

/// What the answer to a question about a job leads to. Until the job is done it is
/// asked about again.
pub open spec fn poll_answer(reply: PollReply, job_id: u64, json: bool) -> AnswerModel {
    let job = numerals::decimal(job_id as nat);
    match reply {
        PollReply::Status { is_completed, has_report, state } => if !is_completed {
            AnswerModel { lines: Seq::empty(), next: CleanNext::Poll(job_id) }
        } else if has_report {
            AnswerModel {
                lines: if json {
                    Seq::empty()
                } else {
                    seq![out("[+] Clean job #"@ + job + " completed via Daemon IPC:"@)]
                },
                next: CleanNext::ShowReport,
            }
        } else {
            AnswerModel {
                lines: if json {
                    seq![out("{\"job_id\": "@ + job + ", \"status\": \""@ + state@ + "\"}"@)]
                } else {
                    seq![err("[!] Clean job #"@ + job + " finished with state: "@ + state@)]
                },
                next: CleanNext::Finished,
            }
        },
        PollReply::Refused(e) => AnswerModel {
            lines: failure(json, e@, "[!] Error polling job #"@ + job + ": "@ + e@),
            next: CleanNext::Finished,
        },
        PollReply::Unreachable(e) => AnswerModel {
            lines: failure(json, e@, "[!] Connection lost while polling job #"@ + job + ": "@ + e@),
            next: CleanNext::Finished,
        },
        PollReply::Unexpected => AnswerModel {
            lines: Seq::empty(),
            next: CleanNext::Poll(job_id),
        },
    }
}

fn json_line(name: &str, value: &str) -> (r: Line)
    ensures
        r@ == out(json_field(name@, value@)),
{
    let mut text = "{\"".to_owned();
    text.append(name);
    text.append("\": \"");
    text.append(value);
    text.append("\"}");
    Line { to_stderr: false, text }
}

fn failure_lines(json: bool, bare: &str, told: String) -> (r: Vec<Line>)
    ensures
        line_models(r@) == failure(json, bare@, told@),
{
    let mut r: Vec<Line> = Vec::new();
    if json {
        r.push(json_line("error", bare));
    } else {
        r.push(Line { to_stderr: true, text: told });
    }
    assert(line_models(r@) =~= failure(json, bare@, told@));
    r
}

/// What to say and do after the daemon answered the request to clean.
pub fn on_reply(reply: DaemonReply, pid: u32, json: bool) -> (r: CleanAnswer)
    ensures
        r@ == reply_answer(reply, pid, json),
{
    let mut lines: Vec<Line> = Vec::new();
    let ghost wanted = reply_answer(reply, pid, json);
    let next = match reply {
        DaemonReply::JobAccepted { job_id, message } => {
            if !json {
                lines.push(Line { to_stderr: false, text: text::with_lead("[+] ", message.as_str()) });
                let mut text = numerals::numbered("[*] Tracking progress for job #", job_id);
                text.append("...");
                lines.push(Line { to_stderr: false, text });
            }
            CleanNext::Poll(job_id)
        },
        DaemonReply::Report => {
            if !json {
                lines.push(
                    Line {
                        to_stderr: false,
                        text: "[+] Clean job executed via Daemon IPC:".to_owned(),
                    },
                );
            }
            CleanNext::ShowReport
        },
        DaemonReply::Message(msg) => {
            if json {
                lines.push(json_line("message", msg.as_str()));
            } else {
                lines.push(
                    Line { to_stderr: false, text: text::with_lead("[+] Daemon message: ", msg.as_str()) },
                );
            }
            CleanNext::Finished
        },
        DaemonReply::Refused(msg) => {
            lines = failure_lines(
                json,
                msg.as_str(),
                text::with_lead("[!] Daemon returned error: ", msg.as_str()),
            );
            CleanNext::Finished
        },
        DaemonReply::Unreachable(e) => {
            let mut text = numerals::numbered(
                "[!] Failed to communicate with daemon (PID: ",
                pid as u64,
            );
            text.append("): ");
            text.append(e.as_str());
            lines = failure_lines(json, e.as_str(), text);
            CleanNext::Finished
        },
        DaemonReply::Unexpected => {
            lines = failure_lines(
                json,
                "Unexpected response from daemon",
                "[!] Unexpected response from daemon".to_owned(),
            );
            CleanNext::Finished
        },
    };
    assert(line_models(lines@) =~= wanted.lines);
    CleanAnswer { lines, next }
}

/// What to say and do after the daemon answered a question about a job.
pub fn on_poll(reply: PollReply, job_id: u64, json: bool) -> (r: CleanAnswer)
    ensures
        r@ == poll_answer(reply, job_id, json),
{
    let mut lines: Vec<Line> = Vec::new();
    let ghost wanted = poll_answer(reply, job_id, json);
    let next = match reply {
        PollReply::Status { is_completed, has_report, state } => {
            if !is_completed {
                CleanNext::Poll(job_id)
            } else if has_report {
                if !json {
                    let mut text = numerals::numbered("[+] Clean job #", job_id);
                    text.append(" completed via Daemon IPC:");
                    lines.push(Line { to_stderr: false, text });
                }
                CleanNext::ShowReport
            } else {
                if json {
                    let mut text = numerals::numbered("{\"job_id\": ", job_id);
                    text.append(", \"status\": \"");
                    text.append(state.as_str());
                    text.append("\"}");
                    lines.push(Line { to_stderr: false, text });
                } else {
                    let mut text = numerals::numbered("[!] Clean job #", job_id);
                    text.append(" finished with state: ");
                    text.append(state.as_str());
                    lines.push(Line { to_stderr: true, text });
                }
                CleanNext::Finished
            }
        },
        PollReply::Refused(e) => {
            let mut text = numerals::numbered("[!] Error polling job #", job_id);
            text.append(": ");
            text.append(e.as_str());
            lines = failure_lines(json, e.as_str(), text);
            CleanNext::Finished
        },
        PollReply::Unreachable(e) => {
            let mut text = numerals::numbered("[!] Connection lost while polling job #", job_id);
            text.append(": ");
            text.append(e.as_str());
            lines = failure_lines(json, e.as_str(), text);
            CleanNext::Finished
        },
        PollReply::Unexpected => CleanNext::Poll(job_id),
    };
    assert(line_models(lines@) =~= wanted.lines);
    CleanAnswer { lines, next }
}

/// How a cleaning begins: through the daemon with this process number, or on its own
/// where none runs. Programs are told nothing.
pub fn on_start(pid: Option<u32>, json: bool) -> (r: Vec<Line>)
    ensures
        line_models(r@) == if json {
            Seq::empty()
        } else {
            match pid {
                Some(p) => seq![
                    out(
                        "[*] Active daemon detected (PID: "@ + numerals::decimal(p as nat)
                            + "). Delegating clean job via IPC..."@,
                    ),
                ],
                None => seq![out("[*] Daemon is offline. Running standalone clean mode..."@)],
            }
        },
{
    let mut r: Vec<Line> = Vec::new();
    if !json {
        match pid {
            Some(p) => {
                let mut text = numerals::numbered("[*] Active daemon detected (PID: ", p as u64);
                text.append("). Delegating clean job via IPC...");
                r.push(Line { to_stderr: false, text });
                assert(line_models(r@) =~= seq![
                    out(
                        "[*] Active daemon detected (PID: "@ + numerals::decimal(p as nat)
                            + "). Delegating clean job via IPC..."@,
                    ),
                ]);
            },
            None => {
                r.push(
                    Line {
                        to_stderr: false,
                        text: "[*] Daemon is offline. Running standalone clean mode...".to_owned(),
                    },
                );
                assert(line_models(r@) =~= seq![
                    out("[*] Daemon is offline. Running standalone clean mode..."@),
                ]);
            },
        }
    } else {
        assert(line_models(r@) =~= Seq::empty());
    }
    r
}

/// What is said where no lock for a cleaning of one's own can be had.
pub fn on_lock_failure(error: &str, json: bool) -> (r: Vec<Line>)
    ensures
        line_models(r@) == failure(json, error@, "[!] Cannot run standalone clean: "@ + error@),
{
    failure_lines(json, error, text::with_lead("[!] Cannot run standalone clean: ", error))
}

/// What the end of a cleaning of one's own leads to: the report is shown, or the error
/// told.
pub fn on_standalone(outcome: Result<(), &str>, json: bool) -> (r: CleanAnswer)
    ensures
        r@ == match outcome {
            Ok(()) => AnswerModel {
                lines: if json {
                    Seq::empty()
                } else {
                    seq![out("[+] Standalone Clean Completed:"@)]
                },
                next: CleanNext::ShowReport,
            },
            Err(e) => AnswerModel {
                lines: seq![err("[-] Clean execution failed: "@ + e@)],
                next: CleanNext::Finished,
            },
        },
{
    let mut lines: Vec<Line> = Vec::new();
    match outcome {
        Ok(()) => {
            if !json {
                lines.push(
                    Line { to_stderr: false, text: "[+] Standalone Clean Completed:".to_owned() },
                );
                assert(line_models(lines@) =~= seq![out("[+] Standalone Clean Completed:"@)]);
            } else {
                assert(line_models(lines@) =~= Seq::empty());
            }
            CleanAnswer { lines, next: CleanNext::ShowReport }
        },
        Err(e) => {
            lines.push(Line { to_stderr: true, text: text::with_lead("[-] Clean execution failed: ", e) });
            assert(line_models(lines@) =~= seq![err("[-] Clean execution failed: "@ + e@)]);
            CleanAnswer { lines, next: CleanNext::Finished }
        },
    }
}

/// A program that reads the output finds nothing meant for people there: what is said
/// through the daemon goes to the usual output, one object to a line.
pub proof fn law_programs_read_objects(reply: DaemonReply, poll: PollReply, pid: u32, job_id: u64)
    ensures
        forall|i: int|
            0 <= i < reply_answer(reply, pid, true).lines.len() ==> {
                let line = #[trigger] reply_answer(reply, pid, true).lines[i];
                !line.to_stderr && line.text.len() > 0 && line.text[0] == '{'
            },
        forall|i: int|
            0 <= i < poll_answer(poll, job_id, true).lines.len() ==> {
                let line = #[trigger] poll_answer(poll, job_id, true).lines[i];
                !line.to_stderr && line.text.len() > 0 && line.text[0] == '{'
            },
{
    reveal_strlit("{\"");
    reveal_strlit("{\"job_id\": ");
}

/// A job is asked about until it is done, refused or out of reach.
pub proof fn law_polling_goes_on_until_done(poll: PollReply, job_id: u64, json: bool)
    ensures
        poll_answer(poll, job_id, json).next is Poll <==> poll is Unexpected || (
        poll matches PollReply::Status { is_completed, .. } && !is_completed),
        poll_answer(poll, job_id, json).next matches CleanNext::Poll(next) ==> next == job_id,
{
}

/// What is asked for is done; a deep cleaning trims and compacts whether it is asked to or
/// not, and nothing else does so unasked.
pub proof fn law_deep_cleanings_do_everything(
    deep: bool,
    trim: bool,
    zram: bool,
    dry_run: bool,
    r: CleanParams,
)
    requires
        call_ensures(clean_params, (deep, trim, zram, dry_run), r),
    ensures
        r.deep == deep && r.dry_run == dry_run,
        deep ==> r.trim && r.zram_compact,
        !deep ==> r.trim == trim && r.zram_compact == zram,
{
}

proof fn lemma_lines(lines: Seq<Line>, i: int)
    ensures
        line_models(lines).len() == lines.len(),
        0 <= i < lines.len() ==> line_models(lines)[i] == (LineModel {
            to_stderr: lines[i].to_stderr,
            text: lines[i].text@,
        }),
{
}

/// A job that the daemon took on is asked about under its own number, a report that came
/// is shown, and any other answer ends the matter.
pub proof fn law_answers_lead_on(reply: DaemonReply, pid: u32, json: bool, r: CleanAnswer)
    requires
        call_ensures(on_reply, (reply, pid, json), r),
    ensures
        reply matches DaemonReply::JobAccepted { job_id, .. } ==> r.next == CleanNext::Poll(job_id),
        reply is Report ==> r.next == CleanNext::ShowReport,
        !(reply is JobAccepted) && !(reply is Report) ==> r.next == CleanNext::Finished,
        json && (reply is JobAccepted || reply is Report) ==> r.lines@.len() == 0,
{
    lemma_lines(r.lines@, 0);
}

/// What the daemon said is told, and an error on the output for errors; programs read it
/// as an object on the usual output.
pub proof fn law_answers_are_told(reply: DaemonReply, pid: u32, json: bool, r: CleanAnswer)
    requires
        call_ensures(on_reply, (reply, pid, json), r),
    ensures
        !json ==> {
            &&& reply matches DaemonReply::JobAccepted { job_id, message } ==> r.lines@.len() == 2
                && !r.lines@[0].to_stderr && !r.lines@[1].to_stderr && r.lines@[0].text@ == "[+] "@
                + message@ && r.lines@[1].text@ == "[*] Tracking progress for job #"@
                + numerals::decimal(job_id as nat) + "..."@
            &&& reply is Report ==> r.lines@.len() == 1 && r.lines@[0].text@
                == "[+] Clean job executed via Daemon IPC:"@
            &&& reply matches DaemonReply::Message(m) ==> r.lines@.len() == 1
                && !r.lines@[0].to_stderr && r.lines@[0].text@ == "[+] Daemon message: "@ + m@
            &&& reply matches DaemonReply::Refused(m) ==> r.lines@.len() == 1
                && r.lines@[0].to_stderr && r.lines@[0].text@ == "[!] Daemon returned error: "@ + m@
            &&& reply matches DaemonReply::Unreachable(e) ==> r.lines@.len() == 1
                && r.lines@[0].to_stderr && r.lines@[0].text@
                == "[!] Failed to communicate with daemon (PID: "@ + numerals::decimal(pid as nat)
                + "): "@ + e@
            &&& reply is Unexpected ==> r.lines@.len() == 1 && r.lines@[0].to_stderr
        },
        json ==> {
            &&& reply matches DaemonReply::Message(m) ==> r.lines@.len() == 1 && r.lines@[0].text@
                == "{\""@ + "message"@ + "\": \""@ + m@ + "\"}"@ && !r.lines@[0].to_stderr
            &&& reply matches DaemonReply::Refused(m) ==> r.lines@.len() == 1 && r.lines@[0].text@
                == "{\""@ + "error"@ + "\": \""@ + m@ + "\"}"@ && !r.lines@[0].to_stderr
            &&& reply matches DaemonReply::Unreachable(m) ==> r.lines@.len() == 1
                && r.lines@[0].text@ == "{\""@ + "error"@ + "\": \""@ + m@ + "\"}"@
                && !r.lines@[0].to_stderr
            &&& reply is Unexpected ==> r.lines@.len() == 1 && !r.lines@[0].to_stderr
        },
{
    lemma_lines(r.lines@, 0);
    lemma_lines(r.lines@, 1);
}

/// A job is asked about again, under the same number and without a word, until it is
/// done, refused or out of reach; one that is done without a report is told of.
pub proof fn law_jobs_are_followed_to_the_end(
    reply: PollReply,
    job_id: u64,
    json: bool,
    r: CleanAnswer,
)
    requires
        call_ensures(on_poll, (reply, job_id, json), r),
    ensures
        reply matches PollReply::Status { is_completed, has_report, state } ==> {
            &&& !is_completed ==> r.next == CleanNext::Poll(job_id) && r.lines@.len() == 0
            &&& is_completed && has_report ==> r.next == CleanNext::ShowReport
            &&& is_completed && !has_report ==> r.next == CleanNext::Finished && r.lines@.len() == 1
            &&& is_completed && has_report && !json ==> r.lines@.len() == 1
                && !r.lines@[0].to_stderr && r.lines@[0].text@ == "[+] Clean job #"@
                + numerals::decimal(job_id as nat) + " completed via Daemon IPC:"@
            &&& is_completed && has_report && json ==> r.lines@.len() == 0
            &&& is_completed && !has_report && !json ==> r.lines@[0].to_stderr
                && r.lines@[0].text@ == "[!] Clean job #"@ + numerals::decimal(job_id as nat)
                + " finished with state: "@ + state@
            &&& is_completed && !has_report && json ==> !r.lines@[0].to_stderr
                && r.lines@[0].text@ == "{\"job_id\": "@ + numerals::decimal(job_id as nat)
                + ", \"status\": \""@ + state@ + "\"}"@
        },
        reply is Unexpected ==> r.next == CleanNext::Poll(job_id) && r.lines@.len() == 0,
        reply matches PollReply::Refused(e) ==> r.next == CleanNext::Finished && r.lines@.len() == 1
            && r.lines@[0].to_stderr == !json && (!json ==> r.lines@[0].text@
            == "[!] Error polling job #"@ + numerals::decimal(job_id as nat) + ": "@ + e@),
        reply matches PollReply::Unreachable(e) ==> r.next == CleanNext::Finished && r.lines@.len()
            == 1 && r.lines@[0].to_stderr == !json && (!json ==> r.lines@[0].text@
            == "[!] Connection lost while polling job #"@ + numerals::decimal(job_id as nat) + ": "@
            + e@),
{
    lemma_lines(r.lines@, 0);
}

/// People are told at the start whether the daemon does the work; programs are not.
pub proof fn law_start_is_told(pid: Option<u32>, json: bool, r: Vec<Line>)
    requires
        call_ensures(on_start, (pid, json), r),
    ensures
        json ==> r@.len() == 0,
        !json ==> r@.len() == 1 && !r@[0].to_stderr,
        !json && pid is Some ==> r@[0].text@ == "[*] Active daemon detected (PID: "@
            + numerals::decimal(pid->0 as nat) + "). Delegating clean job via IPC..."@,
        !json && pid is None ==> r@[0].text@
            == "[*] Daemon is offline. Running standalone clean mode..."@,
{
    lemma_lines(r@, 0);
}

/// The end of a cleaning of one's own shows the report, or the error on the output for
/// errors; a lock that cannot be had is an error too.
pub proof fn law_end_of_own_cleaning_is_told(
    outcome: Result<(), &str>,
    json: bool,
    r: CleanAnswer,
    error: &str,
    lock: Vec<Line>,
)
    requires
        call_ensures(on_standalone, (outcome, json), r),
        call_ensures(on_lock_failure, (error, json), lock),
    ensures
        outcome is Ok ==> r.next == CleanNext::ShowReport && r.lines@.len() == if json {
            0nat
        } else {
            1
        },
        outcome is Ok && !json ==> !r.lines@[0].to_stderr && r.lines@[0].text@
            == "[+] Standalone Clean Completed:"@,
        outcome matches Err(e) ==> r.next == CleanNext::Finished && r.lines@.len() == 1
            && r.lines@[0].to_stderr && r.lines@[0].text@ == "[-] Clean execution failed: "@ + e@,
        lock@.len() == 1 && lock@[0].to_stderr == !json,
        !json ==> lock@[0].text@ == "[!] Cannot run standalone clean: "@ + error@,
        json ==> lock@[0].text@ == "{\""@ + "error"@ + "\": \""@ + error@ + "\"}"@,
{
    lemma_lines(r.lines@, 0);
    lemma_lines(lock@, 0);
}

/// Lines are printed as they are, in their order, on the usual output.
pub proof fn law_lines_keep_their_order(texts: Vec<String>, r: Vec<Line>, i: int)
    requires
        call_ensures(out_lines, (texts,), r),
    ensures
        r@.len() == texts@.len(),
        0 <= i < r@.len() ==> r@[i].text@ == texts@[i]@ && !r@[i].to_stderr,
{
    lemma_lines(r@, i);
    assert(all_out(text::texts(texts@)).len() == texts@.len());
    if 0 <= i < r@.len() {
        assert(all_out(text::texts(texts@))[i] == out(texts@[i]@));
    }
}

} // verus!
