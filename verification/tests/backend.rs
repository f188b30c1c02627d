use papyrus::backend::{
    inject_page_style, Browser, Outcome, PdfAction, PdfEvent, PdfJob, PdfState, FOOTER_HTML,
    TOC_RULE_CHROME, TOC_RULE_WEASYPRINT,
};
use papyrus::error::PapyrusError;

fn job() -> PdfJob {
    PdfJob {
        html_path: "out/temp_pdf.html".to_string(),
        pdf_path: "out/Book.pdf".to_string(),
        footer_path: "out/footer.html".to_string(),
        document: "<html><head></head><body>x</body></html>".to_string(),
    }
}

fn event(outcome: Outcome, text: &str) -> PdfEvent {
    PdfEvent { outcome, text: text.to_string() }
}

fn texts(items: &[&str]) -> Vec<String> {
    items.iter().map(|s| s.to_string()).collect()
}

/// Runs the job to its end, each operation going as `answer` says, and gives
/// the operations asked for.
fn run(job: &PdfJob, answer: fn(&PdfAction) -> PdfEvent) -> Vec<PdfAction> {
    let (mut state, mut action) = job.start();
    let mut asked = Vec::new();
    for _ in 0..20 {
        if let PdfAction::Finish(_) = action {
            asked.push(action);
            assert_eq!(state, PdfState::Finished);
            return asked;
        }
        let event = answer(&action);
        asked.push(action);
        let next = job.advance(state, &event);
        state = next.0;
        action = next.1;
    }
    panic!("the job did not end");
}

#[test]
fn job_starts_by_writing_the_print_document() {
    let (state, action) = job().start();
    assert_eq!(state, PdfState::WritingDocument);
    assert_eq!(
        action,
        PdfAction::WriteFile { path: "out/temp_pdf.html".to_string(), text: job().document }
    );
}

#[test]
fn first_backend_that_succeeds_ends_the_job() {
    let asked = run(&job(), |_| event(Outcome::Completed, ""));
    assert_eq!(
        asked,
        vec![
            PdfAction::WriteFile { path: "out/temp_pdf.html".to_string(), text: job().document },
            PdfAction::WriteFile { path: "out/footer.html".to_string(), text: FOOTER_HTML.to_string() },
            PdfAction::Run {
                program: "wkhtmltopdf".to_string(),
                args: texts(&[
                    "--enable-local-file-access",
                    "--page-size",
                    "A4",
                    "--footer-html",
                    "out/footer.html",
                    "--footer-spacing",
                    "10",
                    "--no-footer-line",
                    "--disable-smart-shrinking",
                    "out/temp_pdf.html",
                    "out/Book.pdf",
                ]),
            },
            PdfAction::RemoveFile { path: "out/footer.html".to_string() },
            PdfAction::RemoveFile { path: "out/temp_pdf.html".to_string() },
            PdfAction::Finish(Ok(())),
        ]
    );
}

#[test]
fn second_backend_runs_when_the_first_is_missing() {
    let asked = run(&job(), |action| match action {
        PdfAction::Run { program, .. } if program == "wkhtmltopdf" => event(Outcome::Failed, "not found"),
        PdfAction::ReadFile { .. } => event(Outcome::Completed, "<html><head></head></html>"),
        _ => event(Outcome::Completed, ""),
    });
    let styled = inject_page_style("<html><head></head></html>", TOC_RULE_WEASYPRINT);
    assert_eq!(
        asked[2..],
        vec![
            PdfAction::Run { program: "wkhtmltopdf".to_string(), args: job().generate_with_wkhtmltopdf() },
            PdfAction::ReadFile { path: "out/temp_pdf.html".to_string() },
            PdfAction::WriteFile { path: "out/temp_pdf.html".to_string(), text: styled },
            PdfAction::Run { program: "weasyprint".to_string(), args: texts(&["out/temp_pdf.html", "out/Book.pdf"]) },
            PdfAction::RemoveFile { path: "out/temp_pdf.html".to_string() },
            PdfAction::Finish(Ok(())),
        ]
    );
}

#[test]
fn footer_is_removed_when_the_first_backend_ran_and_failed() {
    let asked = run(&job(), |action| match action {
        PdfAction::Run { program, .. } if program == "wkhtmltopdf" => event(Outcome::Refused, "exit 1"),
        PdfAction::ReadFile { .. } => event(Outcome::Completed, "<head></head>"),
        _ => event(Outcome::Completed, ""),
    });
    assert_eq!(asked[3], PdfAction::RemoveFile { path: "out/footer.html".to_string() });
    assert_eq!(asked[4], PdfAction::ReadFile { path: "out/temp_pdf.html".to_string() });
    assert_eq!(asked.last(), Some(&PdfAction::Finish(Ok(()))));
}

#[test]
fn browser_runs_when_both_programs_fail() {
    let asked = run(&job(), |action| match action {
        PdfAction::Run { program, .. } if program == "wkhtmltopdf" || program == "weasyprint" => {
            event(Outcome::Refused, "failed")
        }
        PdfAction::ReadFile { .. } => event(Outcome::Completed, "<head></head>"),
        PdfAction::Probe { program } if program == "google-chrome" => event(Outcome::Failed, "not found"),
        PdfAction::Probe { .. } => event(Outcome::Refused, "exit 1"),
        PdfAction::Resolve { .. } => event(Outcome::Completed, "/abs/out/temp_pdf.html"),
        _ => event(Outcome::Completed, ""),
    });
    let styled = inject_page_style("<head></head>", TOC_RULE_CHROME);
    assert_eq!(
        asked[7..],
        vec![
            PdfAction::ReadFile { path: "out/temp_pdf.html".to_string() },
            PdfAction::WriteFile { path: "out/temp_pdf.html".to_string(), text: styled },
            PdfAction::Probe { program: "google-chrome".to_string() },
            PdfAction::Probe { program: "chromium".to_string() },
            PdfAction::Resolve { path: "out/temp_pdf.html".to_string() },
            PdfAction::Run {
                program: "chromium".to_string(),
                args: texts(&["--headless", "--disable-gpu", "--print-to-pdf", "out/Book.pdf", "file:///abs/out/temp_pdf.html"]),
            },
            PdfAction::RemoveFile { path: "out/temp_pdf.html".to_string() },
            PdfAction::Finish(Ok(())),
        ]
    );
}

#[test]
fn browsers_are_looked_for_in_order() {
    let asked = run(&job(), |action| match action {
        PdfAction::WriteFile { .. } | PdfAction::RemoveFile { .. } => event(Outcome::Completed, ""),
        PdfAction::ReadFile { .. } => event(Outcome::Completed, ""),
        _ => event(Outcome::Failed, "not found"),
    });
    let probes: Vec<&PdfAction> = asked.iter().filter(|a| matches!(a, PdfAction::Probe { .. })).collect();
    assert_eq!(
        probes,
        vec![
            &PdfAction::Probe { program: "google-chrome".to_string() },
            &PdfAction::Probe { program: "chromium".to_string() },
            &PdfAction::Probe { program: "chromium-browser".to_string() },
        ]
    );
    assert_eq!(Browser::GoogleChrome.next(), Some(Browser::Chromium));
    assert_eq!(Browser::Chromium.next(), Some(Browser::ChromiumBrowser));
    assert_eq!(Browser::ChromiumBrowser.next(), None);
    assert_eq!(Browser::ChromiumBrowser.program(), "chromium-browser");
}

#[test]
fn job_without_any_backend_removes_the_document_and_advises() {
    let asked = run(&job(), |action| match action {
        PdfAction::WriteFile { .. } | PdfAction::RemoveFile { .. } => event(Outcome::Completed, ""),
        PdfAction::ReadFile { .. } => event(Outcome::Completed, "<head></head>"),
        _ => event(Outcome::Failed, "not found"),
    });
    let n = asked.len();
    assert_eq!(asked[n - 2], PdfAction::RemoveFile { path: "out/temp_pdf.html".to_string() });
    assert_eq!(
        asked[n - 1],
        PdfAction::Finish(Err(PapyrusError::Pdf(
            "No PDF generator found. Please install one of: wkhtmltopdf, weasyprint, or Chrome/Chromium".to_string()
        )))
    );
    let error = PapyrusError::Pdf(
        "No PDF generator found. Please install one of: wkhtmltopdf, weasyprint, or Chrome/Chromium".to_string(),
    );
    assert_eq!(
        error.message(),
        "PDF generation error: No PDF generator found. Please install one of: wkhtmltopdf, weasyprint, or Chrome/Chromium"
    );
}

#[test]
fn job_ends_with_a_file_error_when_the_document_cannot_be_written() {
    let asked = run(&job(), |_| event(Outcome::Failed, "disk full"));
    assert_eq!(asked.len(), 2);
    assert_eq!(asked[1], PdfAction::Finish(Err(PapyrusError::Io("disk full".to_string()))));
}

#[test]
fn job_ends_with_a_file_error_when_the_document_cannot_be_removed() {
    let asked = run(&job(), |action| match action {
        PdfAction::RemoveFile { path } if path == "out/temp_pdf.html" => event(Outcome::Failed, "denied"),
        _ => event(Outcome::Completed, ""),
    });
    assert_eq!(asked.last(), Some(&PdfAction::Finish(Err(PapyrusError::Io("denied".to_string())))));
}

#[test]
fn job_goes_on_when_the_footer_cannot_be_written_or_removed() {
    let asked = run(&job(), |action| match action {
        PdfAction::WriteFile { path, .. } if path == "out/footer.html" => event(Outcome::Failed, "denied"),
        PdfAction::ReadFile { .. } => event(Outcome::Completed, "<head></head>"),
        _ => event(Outcome::Completed, ""),
    });
    assert_eq!(asked[2], PdfAction::ReadFile { path: "out/temp_pdf.html".to_string() });
    assert!(!asked.iter().any(|a| matches!(a, PdfAction::Run { program, .. } if program == "wkhtmltopdf")));
    let asked = run(&job(), |action| match action {
        PdfAction::RemoveFile { path } if path == "out/footer.html" => event(Outcome::Failed, "denied"),
        _ => event(Outcome::Completed, ""),
    });
    assert_eq!(asked.last(), Some(&PdfAction::Finish(Ok(()))));
}

#[test]
fn every_job_ends_whatever_happens() {
    let outcomes = [Outcome::Completed, Outcome::Refused, Outcome::Failed];
    // Every way in which up to six operations can go, the rest then failing.
    for code in 0..729u32 {
        let job = job();
        let (mut state, mut action) = job.start();
        let mut digits = code;
        let mut steps = 0;
        while !matches!(action, PdfAction::Finish(_)) {
            let outcome = if steps < 6 { outcomes[(digits % 3) as usize] } else { Outcome::Failed };
            digits /= 3;
            let next = job.advance(state, &event(outcome, ""));
            state = next.0;
            action = next.1;
            steps += 1;
            assert!(steps <= 15);
        }
        assert_eq!(state, PdfState::Finished);
    }
}

#[test]
fn page_style_goes_before_the_end_of_the_head() {
    let styled = inject_page_style("<html><head><title>t</title></head><body></body></html>", TOC_RULE_WEASYPRINT);
    assert!(styled.starts_with("<html><head><title>t</title>\n        <style>\n            @page {"));
    assert!(styled.contains("target-counter(attr(href), page);\n            float: right;\n            margin-left: 1em;\n        }"));
    assert!(styled.ends_with("\n        </style>\n    </head><body></body></html>"));
    let chrome = inject_page_style("<head></head>", TOC_RULE_CHROME);
    assert!(chrome.contains("leader('.') target-counter(attr(href), page);"));
    assert!(!chrome.contains("margin-left"));
    assert_eq!(inject_page_style("<body>no head</body>", TOC_RULE_CHROME), "<body>no head</body>");
}

#[test]
fn page_style_is_put_in_again_by_the_next_backend() {
    let once = inject_page_style("<head></head>", TOC_RULE_WEASYPRINT);
    let twice = inject_page_style(&once, TOC_RULE_CHROME);
    assert_eq!(twice.matches("<style>").count(), 2);
    assert_eq!(twice.matches("</head>").count(), 1);
}
