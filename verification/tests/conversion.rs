use qfinder::convert::{
    pptx_payload, quick_look_payload, wait_step, Action, ChildPoll, ConversionJob, Event, Failure,
    Outcome, WaitAction, CONVERT_TIMEOUT_NANOS, POLL_INTERVAL_MS,
};
use qfinder::preview::{PreviewPayload, PPTX_LIMIT};

fn describe(a: &Action) -> String {
    match a {
        Action::CreateDirAll(p) => format!("mkdir {}", p),
        Action::FindTool => "find".to_string(),
        Action::CheckExists(p) => format!("exists? {}", p),
        Action::RemoveDirAll(p) => format!("rm -r {}", p),
        Action::Spawn { program, args } => format!("spawn {} {}", program, args.join(" ")),
        Action::Wait => "wait".to_string(),
        Action::ListDir(p) => format!("ls {}", p),
        Action::Rename { from, to } => format!("mv {} {}", from, to),
        Action::Copy { from, to } => format!("cp {} {}", from, to),
        Action::Finish(Outcome::Rendered(p)) => format!("done {}", p),
        Action::Finish(Outcome::Failed(f)) => format!("failed {}", failure_name(f)),
    }
}

fn failure_name(f: &Failure) -> String {
    match f {
        Failure::TooLarge => "too-large".into(),
        Failure::NoTool => "no-tool".into(),
        Failure::CacheDir(e) => format!("cache-dir {}", e),
        Failure::WorkDir(e) => format!("work-dir {}", e),
        Failure::Spawn(e) => format!("spawn {}", e),
        Failure::ConvertFailed => "convert".into(),
        Failure::NoOutput => "no-output".into(),
        Failure::SaveFailed(e) => format!("save {}", e),
    }
}

#[test]
fn waiting_for_the_child() {
    assert_eq!(wait_step(ChildPoll::Exited { success: true }, 0), WaitAction::Finished { success: true });
    assert_eq!(wait_step(ChildPoll::Exited { success: false }, 5), WaitAction::Finished { success: false });
    assert_eq!(wait_step(ChildPoll::Running, CONVERT_TIMEOUT_NANOS), WaitAction::Sleep { ms: POLL_INTERVAL_MS });
    assert_eq!(wait_step(ChildPoll::Running, CONVERT_TIMEOUT_NANOS + 1), WaitAction::KillAndGiveUp);
    assert_eq!(wait_step(ChildPoll::Failed, 0), WaitAction::KillAndGiveUp);
    assert_eq!(POLL_INTERVAL_MS, 100);
    assert_eq!(CONVERT_TIMEOUT_NANOS, 30_000_000_000);
}

#[test]
fn libre_office_converts_and_stores() {
    let (mut job, first) = ConversionJob::libre_office("/docs/talk.pptx", "talk", "/cache", "k1", 1000);
    assert_eq!(describe(&first), "mkdir /cache");
    let steps: Vec<(Event, &str)> = vec![
        (Event::Done, "find"),
        (Event::Found(Some("/usr/bin/soffice".into())), "exists? /cache/k1.pdf"),
        (Event::Exists(false), "rm -r /cache/k1.work"),
        (Event::Failed("absent".into()), "mkdir /cache/k1.work"),
        (
            Event::Done,
            "spawn /usr/bin/soffice -env:UserInstallation=file:///cache/k1.work/profile --headless --norestore --nofirststartwizard --convert-to pdf --outdir /cache/k1.work /docs/talk.pptx",
        ),
        (Event::Done, "wait"),
        (Event::Exited { success: true }, "exists? /cache/k1.work/talk.pdf"),
        (Event::Exists(true), "mv /cache/k1.work/talk.pdf /cache/k1.pdf"),
        (Event::Failed("cross-device".into()), "cp /cache/k1.work/talk.pdf /cache/k1.pdf"),
        (Event::Done, "rm -r /cache/k1.work"),
        (Event::Done, "done /cache/k1.pdf"),
    ];
    for (event, want) in steps {
        let a = job.advance(event);
        assert_eq!(describe(&a), want);
    }
}

#[test]
fn libre_office_reuses_the_cache() {
    let (mut job, _) = ConversionJob::libre_office("/d/a.pptx", "a", "/c", "key", 10);
    job.advance(Event::Done);
    job.advance(Event::Found(Some("soffice".into())));
    let a = job.advance(Event::Exists(true));
    assert_eq!(describe(&a), "done /c/key.pdf");
}

#[test]
fn libre_office_failures() {
    let (_, first) = ConversionJob::libre_office("/d/a.pptx", "a", "/c", "key", PPTX_LIMIT + 1);
    assert_eq!(describe(&first), "failed too-large");

    let (mut job, _) = ConversionJob::libre_office("/d/a.pptx", "a", "/c", "key", 10);
    assert_eq!(describe(&job.advance(Event::Failed("denied".into()))), "failed cache-dir denied");

    let (mut job, _) = ConversionJob::libre_office("/d/a.pptx", "a", "/c", "key", 10);
    job.advance(Event::Done);
    assert_eq!(describe(&job.advance(Event::Found(None))), "failed no-tool");

    let (mut job, _) = ConversionJob::libre_office("/d/a.pptx", "a", "/c", "key", 10);
    job.advance(Event::Done);
    job.advance(Event::Found(Some("soffice".into())));
    job.advance(Event::Exists(false));
    job.advance(Event::Done);
    job.advance(Event::Done);
    job.advance(Event::Done);
    assert_eq!(describe(&job.advance(Event::Exited { success: false })), "rm -r /c/key.work");
    assert_eq!(describe(&job.advance(Event::Done)), "failed convert");

    let (mut job, _) = ConversionJob::libre_office("/d/a.pptx", "a", "/c", "key", 10);
    job.advance(Event::Done);
    job.advance(Event::Found(Some("soffice".into())));
    job.advance(Event::Exists(false));
    job.advance(Event::Done);
    job.advance(Event::Done);
    job.advance(Event::Done);
    job.advance(Event::Exited { success: true });
    assert_eq!(describe(&job.advance(Event::Exists(false))), "rm -r /c/key.work");
    assert_eq!(describe(&job.advance(Event::Failed("x".into()))), "failed no-output");
}

#[test]
fn quick_look_scans_for_any_png() {
    let (mut job, first) = ConversionJob::quick_look("/d/r.docx", "r.docx", "r", "/c", "q");
    assert_eq!(describe(&first), "find");
    let steps: Vec<(Event, &str)> = vec![
        (Event::Found(Some("/usr/bin/qlmanage".into())), "mkdir /c"),
        (Event::Done, "exists? /c/q.png"),
        (Event::Exists(false), "rm -r /c/q.qlwork"),
        (Event::Done, "mkdir /c/q.qlwork"),
        (Event::Done, "spawn /usr/bin/qlmanage -t -s 1600 -o /c/q.qlwork /d/r.docx"),
        (Event::Done, "wait"),
        (Event::Exited { success: true }, "exists? /c/q.qlwork/r.docx.png"),
        (Event::Exists(false), "exists? /c/q.qlwork/r.png"),
        (Event::Exists(false), "ls /c/q.qlwork"),
        (
            Event::Listing(vec![
                ("/c/q.qlwork/notes.txt".into(), Some("txt".into())),
                ("/c/q.qlwork/other".into(), None),
                ("/c/q.qlwork/thumb.png".into(), Some("png".into())),
                ("/c/q.qlwork/second.png".into(), Some("png".into())),
            ]),
            "mv /c/q.qlwork/thumb.png /c/q.png",
        ),
        (Event::Done, "rm -r /c/q.qlwork"),
        (Event::Failed("ignored".into()), "done /c/q.png"),
    ];
    for (event, want) in steps {
        let a = job.advance(event);
        assert_eq!(describe(&a), want);
    }
}

#[test]
fn quick_look_spawn_failure_cleans_up() {
    let (mut job, _) = ConversionJob::quick_look("/d/r.pdf", "r.pdf", "r", "/c", "q");
    job.advance(Event::Found(Some("qlmanage".into())));
    job.advance(Event::Done);
    job.advance(Event::Exists(false));
    job.advance(Event::Done);
    job.advance(Event::Done);
    assert_eq!(describe(&job.advance(Event::Failed("no exec".into()))), "rm -r /c/q.qlwork");
    assert_eq!(describe(&job.advance(Event::Done)), "failed spawn no exec");
}

#[test]
fn payloads_of_outcomes() {
    match pptx_payload(Outcome::Rendered("/c/k.pdf".into()), 5) {
        PreviewPayload::Pptx { pdf_path, size } => assert_eq!((pdf_path.as_str(), size), ("/c/k.pdf", 5)),
        other => panic!("unexpected {:?}", other),
    }
    let reason = |f: Failure| match pptx_payload(Outcome::Failed(f), 5) {
        PreviewPayload::Unsupported { reason, size } => {
            assert_eq!(size, 5);
            reason
        }
        other => panic!("unexpected {:?}", other),
    };
    assert_eq!(reason(Failure::NoTool), "需要安装 LibreOffice 才能预览 .pptx 文件");
    assert_eq!(reason(Failure::CacheDir("e".into())), "无法创建缓存目录：e");
    assert_eq!(reason(Failure::WorkDir("e".into())), "无法创建工作目录：e");
    assert_eq!(reason(Failure::Spawn("e".into())), "启动 LibreOffice 失败：e");
    assert_eq!(reason(Failure::ConvertFailed), "LibreOffice 转换失败或超时");
    assert_eq!(reason(Failure::NoOutput), "LibreOffice 未生成 PDF 输出");
    assert_eq!(reason(Failure::SaveFailed("e".into())), "无法保存转换结果：e");
    match quick_look_payload(Outcome::Rendered("/c/q.png".into()), 7) {
        Some(PreviewPayload::OfficeImage { image_path, size, engine }) => {
            assert_eq!((image_path.as_str(), size, engine.as_str()), ("/c/q.png", 7, "macOS Quick Look"))
        }
        other => panic!("unexpected {:?}", other),
    }
    assert!(quick_look_payload(Outcome::Failed(Failure::NoOutput), 7).is_none());
}

fn event_number(k: u64) -> Event {
    match k % 7 {
        0 => Event::Done,
        1 => Event::Failed("x".into()),
        2 => Event::Found(Some("tool".into())),
        3 => Event::Exists(k % 2 == 0),
        4 => Event::Exited { success: k % 3 != 0 },
        5 => Event::Listing(vec![("/w/a.png".into(), Some("png".into()))]),
        _ => Event::Found(None),
    }
}

#[test]
fn every_conversion_ends_whatever_the_reports() {
    let mut seed: u64 = 12345;
    for round in 0..2000u64 {
        let (mut job, mut action) = if round % 2 == 0 {
            ConversionJob::libre_office("/d/a.pptx", "a", "/c", "k", 10)
        } else {
            ConversionJob::quick_look("/d/a.pdf", "a.pdf", "a", "/c", "k")
        };
        let mut steps = 0;
        while !matches!(action, Action::Finish(_)) {
            seed = seed.wrapping_mul(6364136223846793005).wrapping_add(1442695040888963407);
            action = job.advance(event_number(seed >> 33));
            steps += 1;
            assert!(steps <= 14, "round {} did not end", round);
        }
    }
}
