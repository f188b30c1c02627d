//! The PDF backends: three outside programs tried in a fixed order until
//! one of them succeeds.
//!
//! The library decides; its caller acts. `PdfJob::start` names the first
//! operation, and each call of `PdfJob::advance` takes how the operation
//! went and names the next one, until the job finishes.

use crate::error::{ErrorKind, ErrorView, PapyrusError};
use crate::text::{replace_all, replaced, texts};
use vstd::prelude::*;

verus! {

/// The page footer handed to wkhtmltopdf: the page number, centred.
pub const FOOTER_HTML: &'static str = r#"<!DOCTYPE html>
<html>
<head>
    <meta charset="UTF-8">
    <style>
        body { margin: 0; font-family: 'Georgia', serif; font-size: 10pt; color: #666; }
        .page-number { text-align: center; }
    </style>
    <script>
        function fill() {
            var vars = {};
            var parts = document.location.search.substring(1).split('&');
            for (var i = 0; i < parts.length; i++) {
                var pair = parts[i].split('=', 2);
                vars[pair[0]] = decodeURIComponent(pair[1]);
            }
            var nodes = document.getElementsByClassName('page');
            for (var j = 0; j < nodes.length; j++) {
                nodes[j].textContent = vars['page'];
            }
        }
    </script>
</head>
<body onload="fill()">
    <div class="page-number"><span class="page"></span></div>
</body>
</html>
"#;

/// The style sheet opening that numbers the pages for backends that read
/// CSS paged media.
pub const STYLE_OPEN: &'static str = r#"
        <style>
            @page {
    size: A4;
    margin: 2cm;
    @bottom-center {
        content: counter(page);
        font-size: 10pt;
    }
}

@page cover {
    margin: 0;
    @bottom-center {
        content: none;
    }
}

            "#;

/// The end of the style sheet.
pub const STYLE_CLOSE: &'static str = r#"
        </style>
    "#;

/// The rule that sets a dotted leader and the page number after each entry
/// of the table of contents, as weasyprint takes it.
pub const TOC_RULE_WEASYPRINT: &'static str = r#"
        .toc-page a::after {
            content: leader('.') target-counter(attr(href), page);
            float: right;
            margin-left: 1em;
        }
    "#;

/// The same rule, as a Chromium browser takes it.
pub const TOC_RULE_CHROME: &'static str = r#"
        .toc-page a::after {
            content: leader('.') target-counter(attr(href), page);
            float: right;
        }
    "#;

/// The tag before which the style sheet is put.
pub const HEAD_END: &'static str = "</head>";

/// The style sheet put before the end of the document's head.
pub open spec fn page_style(toc_rule: Seq<char>) -> Seq<char> {
    STYLE_OPEN@ + toc_rule + STYLE_CLOSE@
}

/// A document with the page style put before each `</head>`.
pub open spec fn styled(html: Seq<char>, toc_rule: Seq<char>) -> Seq<char> {
    replaced(html, HEAD_END@, page_style(toc_rule) + HEAD_END@)
}

/// Puts the page style with the given rule for the table of contents
/// before each `</head>` of the document.
pub fn inject_page_style(html: &str, toc_rule: &str) -> (out: String)
    ensures
        out@ == styled(html@, toc_rule@),
{
    let mut style = String::from_str(STYLE_OPEN);
    style.append(toc_rule);
    style.append(STYLE_CLOSE);
    style.append(HEAD_END);
    replace_all(html, HEAD_END, style.as_str())
}

/// The browsers that are looked for, in this order.
#[derive(Debug, Clone, Copy, PartialEq, Eq, Structural)]
pub enum Browser {
    GoogleChrome,
    Chromium,
    ChromiumBrowser,
}

impl Browser {
    /// The program that starts the browser.
    pub open spec fn program_name(self) -> Seq<char> {
        match self {
            Browser::GoogleChrome => "google-chrome"@,
            Browser::Chromium => "chromium"@,
            Browser::ChromiumBrowser => "chromium-browser"@,
        }
    }

    /// The program that starts the browser.
    pub fn program(self) -> (name: &'static str)
        ensures
            name@ == self.program_name(),
    {
        match self {
            Browser::GoogleChrome => "google-chrome",
            Browser::Chromium => "chromium",
            Browser::ChromiumBrowser => "chromium-browser",
        }
    }

    /// The browser that is looked for after this one, if any.
    pub open spec fn following(self) -> Option<Browser> {
        match self {
            Browser::GoogleChrome => Some(Browser::Chromium),
            Browser::Chromium => Some(Browser::ChromiumBrowser),
            Browser::ChromiumBrowser => None,
        }
    }
}

/// The operation that the job is waiting for.
#[derive(Debug, Clone, Copy, PartialEq, Eq, Structural)]
pub enum PdfState {
    /// The print document is being written to the temporary file.
    WritingDocument,
    /// The footer of wkhtmltopdf is being written.
    WritingFooter,
    RunningWkhtmltopdf,
    /// The footer is being removed; `succeeded` says how wkhtmltopdf ended.
    RemovingFooter { succeeded: bool },
    ReadingForWeasyprint,
    WritingForWeasyprint,
    RunningWeasyprint,
    ReadingForChrome,
    WritingForChrome,
    /// The browser is being asked for its version.
    Probing(Browser),
    /// The absolute location of the temporary file is being asked for.
    Resolving(Browser),
    RunningChrome,
    /// The temporary file is being removed; `succeeded` says whether a
    /// backend produced the PDF.
    Removing { succeeded: bool },
    Finished,
}

/// How an operation went.
#[derive(Debug, Clone, Copy, PartialEq, Eq, Structural)]
pub enum Outcome {
    /// It was carried out and succeeded.
    Completed,
    /// A program ran and ended with a failure status.
    Refused,
    /// It could not be carried out.
    Failed,
}

/// How an operation went, with what it produced: the text read, the
/// location resolved, the error output of a program or the words of an
/// error.
#[derive(Debug, PartialEq, Eq)]
pub struct PdfEvent {
    pub outcome: Outcome,
    pub text: String,
}

/// What the caller is asked to do next.
#[derive(Debug, PartialEq, Eq)]
pub enum PdfAction {
    WriteFile { path: String, text: String },
    ReadFile { path: String },
    RemoveFile { path: String },
    /// Run the program to its end and keep its error output.
    Run { program: String, args: Vec<String> },
    /// Run the program with `VERSION_FLAG`; it counts as present if it starts.
    Probe { program: String },
    /// Find the absolute location of the path.
    Resolve { path: String },
    /// Nothing more: the export ended this way.
    Finish(Result<(), PapyrusError>),
}

/// An action as plain characters.
pub ghost enum Step {
    WriteFile { path: Seq<char>, text: Seq<char> },
    ReadFile { path: Seq<char> },
    RemoveFile { path: Seq<char> },
    Run { program: Seq<char>, args: Seq<Seq<char>> },
    Probe { program: Seq<char> },
    Resolve { path: Seq<char> },
    Finish(Result<(), ErrorView>),
}

impl View for PdfAction {
    type V = Step;

    open spec fn view(&self) -> Step {
        match self {
            PdfAction::WriteFile { path, text } => Step::WriteFile { path: path@, text: text@ },
            PdfAction::ReadFile { path } => Step::ReadFile { path: path@ },
            PdfAction::RemoveFile { path } => Step::RemoveFile { path: path@ },
            PdfAction::Run { program, args } => Step::Run {
                program: program@,
                args: texts(args@),
            },
            PdfAction::Probe { program } => Step::Probe { program: program@ },
            PdfAction::Resolve { path } => Step::Resolve { path: path@ },
            PdfAction::Finish(result) => Step::Finish(
                match result {
                    Ok(()) => Ok(()),
                    Err(error) => Err(error@),
                },
            ),
        }
    }
}

/// What a PDF export works on.
#[derive(Debug, PartialEq, Eq)]
pub struct PdfJob {
    /// The temporary file that holds the print document.
    pub html_path: String,
    /// The PDF to produce.
    pub pdf_path: String,
    /// The temporary file that holds the footer of wkhtmltopdf.
    pub footer_path: String,
    /// The print document.
    pub document: String,
}

/// A job as plain characters.
pub ghost struct JobView {
    pub html_path: Seq<char>,
    pub pdf_path: Seq<char>,
    pub footer_path: Seq<char>,
    pub document: Seq<char>,
}

impl View for PdfJob {
    type V = JobView;

    open spec fn view(&self) -> JobView {
        JobView {
            html_path: self.html_path@,
            pdf_path: self.pdf_path@,
            footer_path: self.footer_path@,
            document: self.document@,
        }
    }
}

/// The advice given where no backend produced the PDF.
pub const NO_BACKEND: &'static str =
    "No PDF generator found. Please install one of: wkhtmltopdf, weasyprint, or Chrome/Chromium";

/// What stands before an absolute location to make it a file URL.
pub const FILE_URL: &'static str = "file://";

/// The argument with which a browser is asked for its version.
pub const VERSION_FLAG: &'static str = "--version";

impl JobView {
    /// The command line of wkhtmltopdf: A4 pages, local files readable, the
    /// footer with a spacing of 10 and without a rule, no smart shrinking.
    pub open spec fn wkhtmltopdf_args(self) -> Seq<Seq<char>> {
        seq![
            "--enable-local-file-access"@,
            "--page-size"@,
            "A4"@,
            "--footer-html"@,
            self.footer_path,
            "--footer-spacing"@,
            "10"@,
            "--no-footer-line"@,
            "--disable-smart-shrinking"@,
            self.html_path,
            self.pdf_path,
        ]
    }

    /// The command line of weasyprint: the document, then the PDF.
    pub open spec fn weasyprint_args(self) -> Seq<Seq<char>> {
        seq![self.html_path, self.pdf_path]
    }

    /// The command line of a headless browser that prints the document at
    /// the absolute location `resolved`.
    pub open spec fn chrome_args(self, resolved: Seq<char>) -> Seq<Seq<char>> {
        seq![
            "--headless"@,
            "--disable-gpu"@,
            "--print-to-pdf"@,
            self.pdf_path,
            FILE_URL@ + resolved,
        ]
    }

    /// The state that follows `state` once its operation went as `outcome`
    /// says.
    pub open spec fn next_state(self, state: PdfState, outcome: Outcome) -> PdfState {
        let done = outcome == Outcome::Completed;
        match state {
            PdfState::WritingDocument => if done {
                PdfState::WritingFooter
            } else {
                PdfState::Finished
            },
            PdfState::WritingFooter => if done {
                PdfState::RunningWkhtmltopdf
            } else {
                PdfState::ReadingForWeasyprint
            },
            PdfState::RunningWkhtmltopdf => match outcome {
                Outcome::Completed => PdfState::RemovingFooter { succeeded: true },
                Outcome::Refused => PdfState::RemovingFooter { succeeded: false },
                Outcome::Failed => PdfState::ReadingForWeasyprint,
            },
            PdfState::RemovingFooter { succeeded } => if succeeded {
                PdfState::Removing { succeeded: true }
            } else {
                PdfState::ReadingForWeasyprint
            },
            PdfState::ReadingForWeasyprint => if done {
                PdfState::WritingForWeasyprint
            } else {
                PdfState::ReadingForChrome
            },
            PdfState::WritingForWeasyprint => if done {
                PdfState::RunningWeasyprint
            } else {
                PdfState::ReadingForChrome
            },
            PdfState::RunningWeasyprint => if done {
                PdfState::Removing { succeeded: true }
            } else {
                PdfState::ReadingForChrome
            },
            PdfState::ReadingForChrome => if done {
                PdfState::WritingForChrome
            } else {
                PdfState::Removing { succeeded: false }
            },
            PdfState::WritingForChrome => if done {
                PdfState::Probing(Browser::GoogleChrome)
            } else {
                PdfState::Removing { succeeded: false }
            },
            PdfState::Probing(browser) => if outcome != Outcome::Failed {
                PdfState::Resolving(browser)
            } else {
                match browser.following() {
                    Some(other) => PdfState::Probing(other),
                    None => PdfState::Removing { succeeded: false },
                }
            },
            PdfState::Resolving(browser) => if done {
                PdfState::RunningChrome
            } else {
                PdfState::Removing { succeeded: false }
            },
            PdfState::RunningChrome => PdfState::Removing { succeeded: done },
            PdfState::Removing { succeeded } => PdfState::Finished,
            PdfState::Finished => PdfState::Finished,
        }
    }

    /// The operation that is asked for on entering `next` from `state`,
    /// `outcome` and `text` telling how the operation of `state` went.
    pub open spec fn request(
        self,
        state: PdfState,
        outcome: Outcome,
        text: Seq<char>,
        next: PdfState,
    ) -> Step {
        match next {
            PdfState::WritingDocument => Step::WriteFile {
                path: self.html_path,
                text: self.document,
            },
            PdfState::WritingFooter => Step::WriteFile {
                path: self.footer_path,
                text: FOOTER_HTML@,
            },
            PdfState::RunningWkhtmltopdf => Step::Run {
                program: "wkhtmltopdf"@,
                args: self.wkhtmltopdf_args(),
            },
            PdfState::RemovingFooter { succeeded } => Step::RemoveFile { path: self.footer_path },
            PdfState::ReadingForWeasyprint => Step::ReadFile { path: self.html_path },
            PdfState::WritingForWeasyprint => Step::WriteFile {
                path: self.html_path,
                text: styled(text, TOC_RULE_WEASYPRINT@),
            },
            PdfState::RunningWeasyprint => Step::Run {
                program: "weasyprint"@,
                args: self.weasyprint_args(),
            },
            PdfState::ReadingForChrome => Step::ReadFile { path: self.html_path },
            PdfState::WritingForChrome => Step::WriteFile {
                path: self.html_path,
                text: styled(text, TOC_RULE_CHROME@),
            },
            PdfState::Probing(browser) => Step::Probe { program: browser.program_name() },
            PdfState::Resolving(browser) => Step::Resolve { path: self.html_path },
            PdfState::RunningChrome => match state {
                PdfState::Resolving(browser) => Step::Run {
                    program: browser.program_name(),
                    args: self.chrome_args(text),
                },
                _ => Step::Run {
                    program: Browser::GoogleChrome.program_name(),
                    args: self.chrome_args(text),
                },
            },
            PdfState::Removing { succeeded } => Step::RemoveFile { path: self.html_path },
            PdfState::Finished => Step::Finish(self.verdict(state, outcome, text)),
        }
    }

    /// How the export ends when the operation of `state` went as `outcome`
    /// says and nothing is left to do: well if the temporary file is gone
    /// after a backend succeeded; with the advice to install a backend if it
    /// is gone after all of them failed; with the file error where the
    /// temporary file could not be written or removed.
    pub open spec fn verdict(self, state: PdfState, outcome: Outcome, text: Seq<char>) -> Result<
        (),
        ErrorView,
    > {
        if outcome != Outcome::Completed {
            Err(ErrorView { kind: ErrorKind::Io, detail: text })
        } else if state == (PdfState::Removing { succeeded: true }) {
            Ok(())
        } else {
            Err(ErrorView { kind: ErrorKind::Pdf, detail: NO_BACKEND@ })
        }
    }

    /// The state and the operation that follow.
    pub open spec fn step(self, state: PdfState, outcome: Outcome, text: Seq<char>) -> (
        PdfState,
        Step,
    ) {
        let next = self.next_state(state, outcome);
        (next, self.request(state, outcome, text, next))
    }
}

impl Browser {
    /// The browser that is looked for after this one, if any.
    pub fn next(self) -> (other: Option<Browser>)
        ensures
            other == self.following(),
    {
        match self {
            Browser::GoogleChrome => Some(Browser::Chromium),
            Browser::Chromium => Some(Browser::ChromiumBrowser),
            Browser::ChromiumBrowser => None,
        }
    }
}

impl PdfJob {
    /// The first state of the job and its first operation: writing the
    /// print document to the temporary file.
    pub fn start(&self) -> (first: (PdfState, PdfAction))
        ensures
            first.0 == PdfState::WritingDocument,
            first.1@ == (Step::WriteFile { path: self@.html_path, text: self@.document }),
    {
        (
            PdfState::WritingDocument,
            PdfAction::WriteFile { path: self.html_path.clone(), text: self.document.clone() },
        )
    }

    /// The state that follows `state` once its operation went as `outcome`
    /// says.
    pub fn follow(&self, state: PdfState, outcome: Outcome) -> (next: PdfState)
        ensures
            next == self@.next_state(state, outcome),
    {
        let done = match outcome {
            Outcome::Completed => true,
            _ => false,
        };
        match state {
            PdfState::WritingDocument => if done {
                PdfState::WritingFooter
            } else {
                PdfState::Finished
            },
            PdfState::WritingFooter => if done {
                PdfState::RunningWkhtmltopdf
            } else {
                PdfState::ReadingForWeasyprint
            },
            PdfState::RunningWkhtmltopdf => match outcome {
                Outcome::Completed => PdfState::RemovingFooter { succeeded: true },
                Outcome::Refused => PdfState::RemovingFooter { succeeded: false },
                Outcome::Failed => PdfState::ReadingForWeasyprint,
            },
            PdfState::RemovingFooter { succeeded } => if succeeded {
                PdfState::Removing { succeeded: true }
            } else {
                PdfState::ReadingForWeasyprint
            },
            PdfState::ReadingForWeasyprint => if done {
                PdfState::WritingForWeasyprint
            } else {
                PdfState::ReadingForChrome
            },
            PdfState::WritingForWeasyprint => if done {
                PdfState::RunningWeasyprint
            } else {
                PdfState::ReadingForChrome
            },
            PdfState::RunningWeasyprint => if done {
                PdfState::Removing { succeeded: true }
            } else {
                PdfState::ReadingForChrome
            },
            PdfState::ReadingForChrome => if done {
                PdfState::WritingForChrome
            } else {
                PdfState::Removing { succeeded: false }
            },
            PdfState::WritingForChrome => if done {
                PdfState::Probing(Browser::GoogleChrome)
            } else {
                PdfState::Removing { succeeded: false }
            },
            PdfState::Probing(browser) => match outcome {
                Outcome::Failed => match browser.next() {
                    Some(other) => PdfState::Probing(other),
                    None => PdfState::Removing { succeeded: false },
                },
                _ => PdfState::Resolving(browser),
            },
            PdfState::Resolving(_) => if done {
                PdfState::RunningChrome
            } else {
                PdfState::Removing { succeeded: false }
            },
            PdfState::RunningChrome => PdfState::Removing { succeeded: done },
            PdfState::Removing { .. } => PdfState::Finished,
            PdfState::Finished => PdfState::Finished,
        }
    }

    /// The command line of wkhtmltopdf.
    pub fn generate_with_wkhtmltopdf(&self) -> (args: Vec<String>)
        ensures
            texts(args@) == self@.wkhtmltopdf_args(),
    {
        let mut args: Vec<String> = Vec::new();
        args.push(String::from_str("--enable-local-file-access"));
        args.push(String::from_str("--page-size"));
        args.push(String::from_str("A4"));
        args.push(String::from_str("--footer-html"));
        args.push(self.footer_path.clone());
        args.push(String::from_str("--footer-spacing"));
        args.push(String::from_str("10"));
        args.push(String::from_str("--no-footer-line"));
        args.push(String::from_str("--disable-smart-shrinking"));
        args.push(self.html_path.clone());
        args.push(self.pdf_path.clone());
        assert(texts(args@) =~= self@.wkhtmltopdf_args());
        args
    }

    /// The command line of weasyprint.
    pub fn generate_with_weasyprint(&self) -> (args: Vec<String>)
        ensures
            texts(args@) == self@.weasyprint_args(),
    {
        let mut args: Vec<String> = Vec::new();
        args.push(self.html_path.clone());
        args.push(self.pdf_path.clone());
        assert(texts(args@) =~= self@.weasyprint_args());
        args
    }

    /// The command line of a headless browser, the temporary file being at
    /// the absolute location `resolved`.
    pub fn generate_with_chrome(&self, resolved: &str) -> (args: Vec<String>)
        ensures
            texts(args@) == self@.chrome_args(resolved@),
    {
        let mut args: Vec<String> = Vec::new();
        args.push(String::from_str("--headless"));
        args.push(String::from_str("--disable-gpu"));
        args.push(String::from_str("--print-to-pdf"));
        args.push(self.pdf_path.clone());
        args.push(String::from_str(FILE_URL).concat(resolved));
        assert(texts(args@) =~= self@.chrome_args(resolved@));
        args
    }

    /// Takes how the operation of `state` went and gives the state and the
    /// operation that follow.
    pub fn advance(&self, state: PdfState, event: &PdfEvent) -> (after: (PdfState, PdfAction))
        ensures
            (after.0, after.1@) == self@.step(state, event.outcome, event.text@),
    {
        let next = self.follow(state, event.outcome);
        let action = match next {
            PdfState::WritingDocument => PdfAction::WriteFile {
                path: self.html_path.clone(),
                text: self.document.clone(),
            },
            PdfState::WritingFooter => PdfAction::WriteFile {
                path: self.footer_path.clone(),
                text: String::from_str(FOOTER_HTML),
            },
            PdfState::RunningWkhtmltopdf => PdfAction::Run {
                program: String::from_str("wkhtmltopdf"),
                args: self.generate_with_wkhtmltopdf(),
            },
            PdfState::RemovingFooter { .. } => PdfAction::RemoveFile {
                path: self.footer_path.clone(),
            },
            PdfState::ReadingForWeasyprint => PdfAction::ReadFile { path: self.html_path.clone() },
            PdfState::WritingForWeasyprint => PdfAction::WriteFile {
                path: self.html_path.clone(),
                text: inject_page_style(event.text.as_str(), TOC_RULE_WEASYPRINT),
            },
            PdfState::RunningWeasyprint => PdfAction::Run {
                program: String::from_str("weasyprint"),
                args: self.generate_with_weasyprint(),
            },
            PdfState::ReadingForChrome => PdfAction::ReadFile { path: self.html_path.clone() },
            PdfState::WritingForChrome => PdfAction::WriteFile {
                path: self.html_path.clone(),
                text: inject_page_style(event.text.as_str(), TOC_RULE_CHROME),
            },
            PdfState::Probing(browser) => PdfAction::Probe {
                program: String::from_str(browser.program()),
            },
            PdfState::Resolving(_) => PdfAction::Resolve { path: self.html_path.clone() },
            PdfState::RunningChrome => {
                let browser = match state {
                    PdfState::Resolving(browser) => browser,
                    _ => Browser::GoogleChrome,
                };
                PdfAction::Run {
                    program: String::from_str(browser.program()),
                    args: self.generate_with_chrome(event.text.as_str()),
                }
            },
            PdfState::Removing { .. } => PdfAction::RemoveFile { path: self.html_path.clone() },
            PdfState::Finished => {
                let completed = match event.outcome {
                    Outcome::Completed => true,
                    _ => false,
                };
                let succeeded = match state {
                    PdfState::Removing { succeeded } => succeeded,
                    _ => false,
                };
                if !completed {
                    PdfAction::Finish(Err(PapyrusError::Io(event.text.clone())))
                } else if succeeded {
                    PdfAction::Finish(Ok(()))
                } else {
                    PdfAction::Finish(Err(PapyrusError::Pdf(String::from_str(NO_BACKEND))))
                }
            },
        };
        (next, action)
    }
}

/// An upper bound on the operations that a job in this state still asks for.
pub open spec fn steps_left(state: PdfState) -> nat {
    match state {
        PdfState::WritingDocument => 15,
        PdfState::WritingFooter => 14,
        PdfState::RunningWkhtmltopdf => 13,
        PdfState::RemovingFooter { succeeded } => 12,
        PdfState::ReadingForWeasyprint => 11,
        PdfState::WritingForWeasyprint => 10,
        PdfState::RunningWeasyprint => 9,
        PdfState::ReadingForChrome => 8,
        PdfState::WritingForChrome => 7,
        PdfState::Probing(Browser::GoogleChrome) => 6,
        PdfState::Probing(Browser::Chromium) => 5,
        PdfState::Probing(Browser::ChromiumBrowser) => 4,
        PdfState::Resolving(browser) => 3,
        PdfState::RunningChrome => 2,
        PdfState::Removing { succeeded } => 1,
        PdfState::Finished => 0,
    }
}

/// Whether a backend is being run in this state.
pub open spec fn is_running(state: PdfState) -> bool {
    state == PdfState::RunningWkhtmltopdf || state == PdfState::RunningWeasyprint || state
        == PdfState::RunningChrome
}

/// Whether a backend has produced the PDF and only the temporary files are
/// left to remove.
pub open spec fn is_closing(state: PdfState) -> bool {
    state == (PdfState::RemovingFooter { succeeded: true }) || state == (PdfState::Removing {
        succeeded: true,
    })
}

/// Every job ends: whatever happens, each operation brings it nearer to
/// its end.
pub proof fn lemma_job_ends(job: JobView, state: PdfState, outcome: Outcome)
    requires
        state != PdfState::Finished,
    ensures
        steps_left(job.next_state(state, outcome)) < steps_left(state),
{
}

/// The first backend that succeeds is the last that runs: once a backend
/// has completed, the job only removes its temporary files, and it ends
/// well as soon as the print document is removed.
pub proof fn lemma_first_success_ends_the_chain(
    job: JobView,
    state: PdfState,
    outcome: Outcome,
    text: Seq<char>,
)
    ensures
        is_running(state) && outcome == Outcome::Completed ==> is_closing(
            job.next_state(state, outcome),
        ),
        is_closing(state) ==> is_closing(job.next_state(state, outcome)) || job.next_state(
            state,
            outcome,
        ) == PdfState::Finished,
        state == (PdfState::RemovingFooter { succeeded: true }) ==> job.step(state, outcome, text)
            == (PdfState::Removing { succeeded: true }, Step::RemoveFile { path: job.html_path }),
        state == (PdfState::Removing { succeeded: true }) && outcome == Outcome::Completed
            ==> job.step(state, outcome, text) == (PdfState::Finished, Step::Finish(Ok(()))),
{
}

/// A backend that fails hands over to the next one, in the order
/// wkhtmltopdf, weasyprint, browser; after the last one only the print
/// document is removed, and the job ends with the advice to install a
/// backend.
pub proof fn lemma_failure_tries_the_next(job: JobView, outcome: Outcome, text: Seq<char>)
    requires
        outcome != Outcome::Completed,
    ensures
        job.next_state(PdfState::RunningWkhtmltopdf, Outcome::Failed)
            == PdfState::ReadingForWeasyprint,
        job.next_state(PdfState::RunningWkhtmltopdf, Outcome::Refused) == (
        PdfState::RemovingFooter { succeeded: false }),
        job.next_state(PdfState::RemovingFooter { succeeded: false }, outcome)
            == PdfState::ReadingForWeasyprint,
        job.next_state(PdfState::RunningWeasyprint, outcome) == PdfState::ReadingForChrome,
        job.step(PdfState::RunningChrome, outcome, text) == (
            PdfState::Removing { succeeded: false },
            Step::RemoveFile { path: job.html_path },
        ),
        job.step(PdfState::Removing { succeeded: false }, Outcome::Completed, text) == (
            PdfState::Finished,
            Step::Finish(Err(ErrorView { kind: ErrorKind::Pdf, detail: NO_BACKEND@ })),
        ),
{
}

/// No job ends before it has asked to remove the print document, but the
/// one that could not write it; and none ends well unless a backend
/// succeeded and the print document was removed.
pub proof fn lemma_end_follows_removal(
    job: JobView,
    state: PdfState,
    outcome: Outcome,
    text: Seq<char>,
)
    requires
        state != PdfState::Finished,
        job.next_state(state, outcome) == PdfState::Finished,
    ensures
        state is Removing || (state == PdfState::WritingDocument && outcome != Outcome::Completed),
        job.step(state, outcome, text).1 == Step::Finish(Ok(())) <==> state == (PdfState::Removing {
            succeeded: true,
        }) && outcome == Outcome::Completed,
{
}

} // verus!
