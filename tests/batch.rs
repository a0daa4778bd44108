use conv::batch::{output_path, staged_name, Action, Event, Files, Merger, Progress};

fn files(audio: &[&str], subtitle: &[&str], image: Option<&str>) -> Files {
    Files {
        audio: audio.iter().map(|s| s.to_string()).collect(),
        image: image.map(|s| s.to_string()),
        subtitle: subtitle.iter().map(|s| s.to_string()).collect(),
    }
}

fn idle() -> Progress {
    Progress { active: false, completed: 0, total: 0 }
}

fn expect_stage(a: Action) -> (String, String) {
    match a {
        Action::Stage { source, dest } => (source, dest),
        _ => panic!("expected a staging"),
    }
}

fn expect_invoke(a: Action) -> (String, String, String, String) {
    match a {
        Action::Invoke(job) => (job.audio, job.image, job.subtitle, job.output),
        _ => panic!("expected a transcoder run"),
    }
}

fn expect_release(a: Action) -> String {
    match a {
        Action::Release { staged } => staged,
        _ => panic!("expected a release"),
    }
}

const NEXT: Event = Event::Next { cancelled: false };
const OK: Event = Event::Outcome { ok: true };

#[test]
fn no_image_means_no_batch() {
    assert!(Merger::start(&files(&["a.mp3"], &["a.srt"], None)).is_none());
    assert!(Merger::start(&Files { audio: vec![], image: None, subtitle: vec![] }).is_none());
}

#[test]
fn total_is_the_shorter_list() {
    let m = Merger::start(&files(&["a.mp3", "b.mp3", "c.mp3"], &["a.srt", "b.srt"], Some("i.png")))
        .unwrap();
    assert_eq!(m.progress(), Progress { active: true, completed: 0, total: 2 });
}

#[test]
fn two_pairs_end_to_end() {
    let mut m = Merger::start(&files(
        &["d/one.mp3", "d/two.wav"],
        &["s/one.srt", "s/two.lrc"],
        Some("bg.jpg"),
    ))
    .unwrap();
    assert_eq!(m.progress(), Progress { active: true, completed: 0, total: 2 });

    let (src, dest) = expect_stage(m.advance(NEXT, "t1"));
    assert_eq!((src.as_str(), dest.as_str()), ("s/one.srt", "t1.srt"));
    assert_eq!(m.progress(), Progress { active: true, completed: 1, total: 2 });
    let job = expect_invoke(m.advance(OK, "unused"));
    assert_eq!(
        job,
        ("d/one.mp3".to_string(), "bg.jpg".to_string(), "t1.srt".to_string(), "d/one.mp4".to_string())
    );
    assert_eq!(expect_release(m.advance(OK, "unused")), "t1.srt");
    assert_eq!(m.progress(), Progress { active: true, completed: 1, total: 2 });

    let (src, dest) = expect_stage(m.advance(NEXT, "t2"));
    assert_eq!((src.as_str(), dest.as_str()), ("s/two.lrc", "t2.lrc"));
    assert_eq!(m.progress(), Progress { active: true, completed: 2, total: 2 });
    let job = expect_invoke(m.advance(OK, "unused"));
    assert_eq!(job.3, "d/two.mp4");
    assert_eq!(job.2, "t2.lrc");
    assert_eq!(expect_release(m.advance(OK, "unused")), "t2.lrc");

    assert!(matches!(m.advance(NEXT, "t3"), Action::Finish));
    assert_eq!(m.progress(), idle());
    assert!(matches!(m.advance(NEXT, "t4"), Action::Finish));
}

#[test]
fn cancellation_between_pairs_stops_dispatch() {
    let mut m = Merger::start(&files(&["a.mp3", "b.mp3", "c.mp3"], &["a.srt", "b.srt", "c.srt"], Some("i.png")))
        .unwrap();
    expect_stage(m.advance(NEXT, "t1"));
    expect_invoke(m.advance(OK, "x"));
    expect_release(m.advance(OK, "x"));
    assert!(matches!(m.advance(Event::Next { cancelled: true }, "t2"), Action::Finish));
    assert_eq!(m.progress(), idle());
    assert!(matches!(m.advance(NEXT, "t3"), Action::Finish));
    assert!(matches!(m.advance(OK, "t3"), Action::Finish));
}

#[test]
fn cancelled_before_first_pair() {
    let mut m = Merger::start(&files(&["a.mp3"], &["a.srt"], Some("i.png"))).unwrap();
    assert!(matches!(m.advance(Event::Next { cancelled: true }, "t"), Action::Finish));
    assert_eq!(m.progress(), idle());
}

#[test]
fn failed_staging_releases_and_aborts() {
    let mut m = Merger::start(&files(&["a.mp3", "b.mp3"], &["a.srt", "b.srt"], Some("i.png"))).unwrap();
    expect_stage(m.advance(NEXT, "t1"));
    assert_eq!(expect_release(m.advance(Event::Outcome { ok: false }, "x")), "t1.srt");
    assert_eq!(m.progress(), idle());
    assert!(matches!(m.advance(NEXT, "t2"), Action::Finish));
    assert_eq!(m.progress(), idle());
}

#[test]
fn failed_transcoder_releases_and_aborts() {
    let mut m = Merger::start(&files(&["a.mp3", "b.mp3"], &["a.srt", "b.srt"], Some("i.png"))).unwrap();
    expect_stage(m.advance(NEXT, "t1"));
    expect_invoke(m.advance(OK, "x"));
    assert_eq!(expect_release(m.advance(Event::Outcome { ok: false }, "x")), "t1.srt");
    assert_eq!(m.progress(), idle());
    assert!(matches!(m.advance(NEXT, "t2"), Action::Finish));
}

#[test]
fn subtitle_without_extension_ends_the_batch() {
    let mut m = Merger::start(&files(&["a.mp3"], &["subtitle"], Some("i.png"))).unwrap();
    assert!(matches!(m.advance(NEXT, "t1"), Action::Finish));
    assert_eq!(m.progress(), idle());
}

#[test]
fn unexpected_event_ends_the_batch() {
    let mut m = Merger::start(&files(&["a.mp3"], &["a.srt"], Some("i.png"))).unwrap();
    assert!(matches!(m.advance(OK, "t1"), Action::Finish));
    assert_eq!(m.progress(), idle());
}

#[test]
fn empty_lists_finish_at_once() {
    let mut m = Merger::start(&files(&[], &["a.srt"], Some("i.png"))).unwrap();
    assert_eq!(m.progress(), Progress { active: true, completed: 0, total: 0 });
    assert!(matches!(m.advance(NEXT, "t"), Action::Finish));
    assert_eq!(m.progress(), idle());
}

#[test]
fn step_stages_under_fresh_random_names() {
    let f = files(&["a.mp3"], &["a.srt"], Some("i.png"));
    let mut m1 = Merger::start(&f).unwrap();
    let mut m2 = Merger::start(&f).unwrap();
    let (src, d1) = expect_stage(m1.step(NEXT));
    let (_, d2) = expect_stage(m2.step(NEXT));
    assert_eq!(src, "a.srt");
    assert_ne!(d1, d2);
    assert_eq!(d1.len(), 40);
    assert!(d1.ends_with(".srt"));
    assert!(d1[..36].chars().all(|c| c == '-' || c.is_ascii_digit() || ('a'..='f').contains(&c)));
}

#[test]
fn staged_name_keeps_the_extension() {
    assert_eq!(staged_name("tok", "x/y.lrc"), Some("tok.lrc".to_string()));
    assert_eq!(staged_name("tok", "x/y"), None);
}

#[test]
fn output_sits_beside_the_audio() {
    assert_eq!(output_path("C:\\music\\song.mp3"), "C:\\music\\song.mp4");
    assert_eq!(output_path("noext"), "noext.mp4");
}
