use sauron::capture::{Capturer, display_count_or_default, select_displays};
use sauron::config::CaptureConfig;
use sauron::email::{Mailer, html_escape};
use sauron::error::SauronError;
use sauron::launchd::{plist_content, plist_path, plist_path_from, PLIST_LABEL};
use sauron::processor::{Processor, check_ollama_status, generate_url, reply_text};
use sauron::summarizer::{Summarizer, short_time};

#[test]
fn display_count_defaults_to_one() {
    assert_eq!(display_count_or_default(0, 3), 3);
    assert_eq!(display_count_or_default(0, 0), 1);
    assert_eq!(display_count_or_default(-1, 2), 1);
}

#[test]
fn displays_follow_the_filter() {
    assert_eq!(select_displays(&None, 3), vec![0, 1, 2]);
    assert_eq!(select_displays(&Some(vec![2, 0, 5, 1]), 2), vec![0, 1]);
    assert_eq!(select_displays(&Some(vec![]), 2), Vec::<usize>::new());
    assert_eq!(select_displays(&None, 0), Vec::<usize>::new());
}

#[test]
fn capture_plan_names_files_per_display() {
    let c = Capturer::new("/shots".to_string());
    let mut cfg = CaptureConfig::default();
    cfg.monitors = Some(vec![1, 4]);
    let plan = c.plan_captures(&cfg, 2, "2026-03-08", "14-03-05", "2026-03-08T14:03:05+01:00").unwrap();
    assert_eq!(plan.dir, "/shots/2026-03-08");
    assert_eq!(plan.captured_at, "2026-03-08T14:03:05+01:00");
    assert_eq!(plan.targets.len(), 1);
    let t = &plan.targets[0];
    assert_eq!(t.display_index, 1);
    assert_eq!(t.display_label, "display-1");
    assert_eq!(t.display_arg, "2");
    assert_eq!(t.file_path, "/shots/2026-03-08/14-03-05_display-1.png");

    assert!(plan.targets.iter().all(|t| t.file_path.starts_with("/shots")));
    let all = c.plan_captures(&CaptureConfig::default(), 2, "d", "t", "a").unwrap();
    assert_eq!(all.targets.len(), 2);
    assert_eq!(all.targets[1].file_path, "/shots/d/t_display-1.png");
}

#[test]
fn capture_plan_without_displays_fails() {
    let c = Capturer::new("/shots".to_string());
    let mut cfg = CaptureConfig::default();
    cfg.monitors = Some(vec![3, 7]);
    match c.plan_captures(&cfg, 2, "d", "t", "a") {
        Err(SauronError::Capture(msg)) => {
            assert_eq!(msg, "No valid displays to capture (total=2, filter=Some([3, 7]))")
        }
        _ => panic!("expected a capture error"),
    }
    match c.plan_captures(&CaptureConfig::default(), 0, "d", "t", "a") {
        Err(SauronError::Capture(msg)) => {
            assert_eq!(msg, "No valid displays to capture (total=0, filter=None)")
        }
        _ => panic!("expected a capture error"),
    }
}

#[test]
fn collected_captures_keep_the_saved_ones() {
    let c = Capturer::new("/s".to_string());
    let plan = c.plan_captures(&CaptureConfig::default(), 3, "d", "t", "at").unwrap();
    let saved = plan.collect(&vec![true, false, true]).unwrap();
    assert_eq!(saved.len(), 2);
    assert_eq!(saved[0].display_label, "display-0");
    assert_eq!(saved[1].display_index, 2);
    assert_eq!(saved[1].file_path, "/s/d/t_display-2.png");
    assert!(saved.iter().all(|r| r.captured_at == "at"));
    match plan.collect(&vec![false, false, false]) {
        Err(SauronError::Capture(msg)) => assert_eq!(msg, "All display captures failed"),
        _ => panic!("expected a capture error"),
    }
}

#[test]
fn html_escape_replaces_markup() {
    assert_eq!(html_escape("a < b && c > d"), "a &lt; b &amp;&amp; c &gt; d");
    assert_eq!(html_escape("plain"), "plain");
    assert_eq!(html_escape("&lt;"), "&amp;lt;");
    assert_eq!(html_escape(""), "");
}

#[test]
fn escaped_html_reads_back() {
    for s in ["a < b && c > d", "&amp;lt;", "<<&>>", "plain;text", ""] {
        let e = html_escape(s);
        assert!(!e.contains('<') && !e.contains('>'));
        for (i, _) in e.match_indices('&') {
            let rest = &e[i..];
            assert!(rest.starts_with("&amp;") || rest.starts_with("&lt;") || rest.starts_with("&gt;"));
        }
        let back = e.replace("&lt;", "<").replace("&gt;", ">").replace("&amp;", "&");
        assert_eq!(back, s);
    }
}

#[test]
fn mailer_needs_all_three_settings() {
    assert!(Mailer::new("".into(), "a@b".into(), "c@d".into()).is_none());
    assert!(Mailer::new("k".into(), "".into(), "c@d".into()).is_none());
    assert!(Mailer::new("k".into(), "a@b".into(), "".into()).is_none());
    let m = Mailer::new("re_key".into(), "a@b".into(), "c@d".into()).unwrap();
    let e = m.daily_email("2026-03-08", "# Log <b>");
    assert_eq!(e.url, "https://api.resend.com/emails");
    assert_eq!(e.authorization, "Bearer re_key");
    assert_eq!(e.from, "a@b");
    assert_eq!(e.to, "c@d");
    assert_eq!(e.subject, "Sauron Daily Log — 2026-03-08");
    assert_eq!(
        e.html,
        "<html><body><pre style=\"font-family: monospace; white-space: pre-wrap;\"># Log &lt;b&gt;</pre></body></html>"
    );
}

#[test]
fn email_outcome_reports_the_status() {
    assert_eq!(Mailer::email_outcome(200, "200 OK", ""), Ok(()));
    assert_eq!(
        Mailer::email_outcome(422, "422 Unprocessable Entity", "bad"),
        Err(SauronError::Email("Resend API error (422 Unprocessable Entity): bad".to_string()))
    );
}

#[test]
fn plist_runs_the_daemon() {
    let text = plist_content("/usr/local/bin/sauron", "/Users/al/.config/sauron");
    let expected = r#"<?xml version="1.0" encoding="UTF-8"?>
<!DOCTYPE plist PUBLIC "-//Apple//DTD PLIST 1.0//EN" "http://www.apple.com/DTDs/PropertyList-1.0.dtd">
<plist version="1.0">
<dict>
    <key>Label</key>
    <string>com.sauron.agent</string>
    <key>ProgramArguments</key>
    <array>
        <string>/usr/local/bin/sauron</string>
        <string>start</string>
    </array>
    <key>RunAtLoad</key>
    <true/>
    <key>KeepAlive</key>
    <true/>
    <key>StandardOutPath</key>
    <string>/Users/al/.config/sauron/sauron.log</string>
    <key>StandardErrorPath</key>
    <string>/Users/al/.config/sauron/sauron.err.log</string>
</dict>
</plist>"#;
    assert_eq!(text, expected);
    assert_eq!(PLIST_LABEL, "com.sauron.agent");
    assert_eq!(plist_path_from(Some("/Users/al".into())), "/Users/al/Library/LaunchAgents/com.sauron.agent.plist");
    assert_eq!(plist_path_from(None), "~/Library/LaunchAgents/com.sauron.agent.plist");
    assert!(plist_path().ends_with("/Library/LaunchAgents/com.sauron.agent.plist"));
}

#[test]
fn ollama_requests() {
    let p = Processor::new("http://localhost:11434".into(), "llava".into(), "llama3.2".into());
    assert_eq!(generate_url("http://h:1"), "http://h:1/api/generate");
    let v = p.vision_request(&[0x4d, 0x61, 0x6e], "display-0");
    assert_eq!(v.url, "http://localhost:11434/api/generate");
    assert_eq!(v.model, "llava");
    assert_eq!(v.images, Some(vec!["TWFu".to_string()]));
    assert_eq!(v.timeout_secs, 120);
    assert!(v.prompt.starts_with("Describe what the user is doing on their screen."));
    assert!(v.prompt.ends_with(" This screenshot is from monitor 'display-0'."));
    let v2 = p.vision_request(&[1, 2], "d");
    assert_eq!(v2.images, Some(vec!["AQI=".to_string()]));
    let v3 = p.vision_request(&[0xfb, 0xff, 0xbf, 0, 0x10], "d");
    assert_eq!(v3.images, Some(vec!["+/+/ABA=".to_string()]));
    let v4 = p.vision_request(&[77], "d");
    assert_eq!(v4.images, Some(vec!["TQ==".to_string()]));
    let t = p.text_request("hello");
    assert_eq!(t.model, "llama3.2");
    assert!(t.images.is_none());
    assert!(t.prompt.starts_with("The following text was extracted from a user's screen via OCR. Describe"));
    assert!(t.prompt.ends_with("\n\nExtracted text:\nhello"));
}

#[test]
fn ollama_answers() {
    assert_eq!(check_ollama_status(200, "200 OK"), Ok(()));
    assert_eq!(
        check_ollama_status(500, "500 Internal Server Error"),
        Err(SauronError::Ollama("Ollama returned status: 500 Internal Server Error".into()))
    );
    assert_eq!(reply_text(Some("  a summary \n".into()), "missing"), Ok("a summary".to_string()));
    assert_eq!(reply_text(None, "missing"), Err(SauronError::Ollama("missing".into())));
}

#[test]
fn ocr_text_rejects_empty_and_errors() {
    assert_eq!(Processor::ocr_text(true, " hi \n", "/a.png"), Ok("hi".to_string()));
    let fail = Err(SauronError::Ollama("OCR failed for /a.png".to_string()));
    assert_eq!(Processor::ocr_text(false, "hi", "/a.png"), fail);
    assert_eq!(Processor::ocr_text(true, "  \n", "/a.png"), fail);
    assert_eq!(Processor::ocr_text(true, "ERROR: Could not load image\n", "/a.png"), fail);
}

#[test]
fn vision_first_then_ocr() {
    let p = Processor::new("u".into(), "llava".into(), "llama3.2".into());
    assert_eq!(
        p.vision_outcome(Ok("coding".into())),
        Some(("coding".to_string(), "llava".to_string(), "vision".to_string()))
    );
    assert_eq!(p.vision_outcome(Err(SauronError::Ollama("down".into()))), None);
    assert_eq!(
        p.fallback_outcome("reading".into()),
        ("reading".to_string(), "llama3.2".to_string(), "ocr_fallback".to_string())
    );
}

#[test]
fn timeline_shows_clock_times() {
    assert_eq!(short_time("2026-03-08T14:03:05+01:00"), "14:03");
    assert_eq!(short_time("no time here"), "no time here");
    assert_eq!(short_time("2026-03-08T1:2"), "2026-03-08T1:2");
    assert_eq!(short_time("xTé1234"), "é123");
    assert_eq!(short_time("xT1234é"), "xT1234é");
    let entries = vec![
        ("2026-03-08T09:00:00+00:00".to_string(), "Editing code".to_string()),
        ("2026-03-08T09:03:00+00:00".to_string(), "Reading mail".to_string()),
    ];
    assert_eq!(Summarizer::timeline_text(&entries), "[09:00] Editing code\n[09:03] Reading mail");
}

#[test]
fn daily_summary_request_and_document() {
    let s = Summarizer::new("http://h".into(), "llama3.2".into(), "/logs".into());
    let entries = vec![("2026-03-08T09:00:00".to_string(), "Coding".to_string())];
    let req = s.daily_request("2026-03-08", &entries).unwrap();
    assert_eq!(req.url, "http://h/api/generate");
    assert_eq!(req.timeout_secs, 180);
    assert_eq!(
        req.prompt,
        "Based on these chronological screen activity summaries from 2026-03-08, create a concise daily activity log in markdown format. Group related activities, note time ranges, highlight key accomplishments. Use headers and bullet points.\n\n[09:00] Coding"
    );
    assert_eq!(
        s.daily_request("2026-03-08", &vec![]).err(),
        Some(SauronError::Ollama("No entries to summarize for 2026-03-08".into()))
    );
    let (md, path) = s.daily_document("2026-03-08", Some(" ## Morning\n- coding \n".into())).unwrap();
    assert_eq!(md, "# Daily Activity Log — 2026-03-08\n\n## Morning\n- coding\n");
    assert_eq!(path, "/logs/2026-03-08.md");
    assert_eq!(s.daily_document("d", None), Err(SauronError::Ollama("No response field".into())));
}
