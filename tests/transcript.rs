use std::time::Duration;

use conv::transcript::{is_control_token, Segment, TranscribeError, Transcript, Utterance};

fn utt(start: i64, end: i64, text: &str) -> Utterance {
    Utterance { start, end, text: text.to_string() }
}

fn transcript(utterances: Vec<Utterance>, words: Option<Vec<Utterance>>) -> Transcript {
    Transcript { processing_time: Duration::from_millis(5), utterances, word_utterances: words }
}

#[test]
fn lrc_of_single_utterance_uses_integer_split() {
    let t = transcript(vec![utt(65, 130, "hi")], None);
    assert_eq!(t.as_lrc(), "[00:00.65]hi\n[00:01.30]\n");
}

#[test]
fn lrc_minutes_and_seconds() {
    let t = transcript(vec![utt(6543, 372199, "later")], None);
    assert_eq!(t.as_lrc(), "[01:05.43]later\n[62:01.99]\n");
}

#[test]
fn lrc_empty_transcript_is_empty() {
    let t = transcript(vec![], None);
    assert_eq!(t.as_lrc(), "");
    assert_eq!(t.as_srt(), "");
}

#[test]
fn lrc_prefers_word_level_utterances() {
    let t = transcript(
        vec![utt(0, 200, "hello world")],
        Some(vec![utt(0, 90, "hello"), utt(90, 200, "world")]),
    );
    assert_eq!(t.as_lrc(), "[00:00.00]hello\n[00:00.90]\n[00:00.90]world\n[00:02.00]\n");
}

#[test]
fn lrc_negative_time_follows_integer_formatting() {
    let t = transcript(vec![utt(-65, 0, "x")], None);
    assert_eq!(t.as_lrc(), "[00:00.-65]x\n[00:00.00]\n");
}

#[test]
fn srt_numbers_cues_and_writes_milliseconds() {
    let t = transcript(vec![utt(65, 130, "hi"), utt(366107, 366250, "bye")], None);
    assert_eq!(
        t.as_srt(),
        "1\n00:00:00,650 --> 00:00:01,300\nhi\n\n2\n01:01:01,070 --> 01:01:02,500\nbye\n\n"
    );
}

#[test]
fn control_tokens_are_recognised_by_prefix() {
    assert!(is_control_token("[_BEG_]"));
    assert!(is_control_token("[_TT_150]"));
    assert!(!is_control_token(" hello"));
    assert!(!is_control_token("["));
    assert!(!is_control_token("[x"));
}

#[test]
fn no_segments_is_an_error() {
    let r = Transcript::from_segments(&vec![], true, Duration::from_secs(1));
    assert!(matches!(r, Err(TranscribeError::NoSegments)));
}

#[test]
fn segments_become_utterances_and_spoken_tokens_words() {
    let segments = vec![
        Segment {
            start: 0,
            end: 150,
            text: " hello there".to_string(),
            tokens: vec![utt(0, 0, "[_BEG_]"), utt(0, 80, " hello"), utt(80, 150, " there")],
        },
        Segment {
            start: 150,
            end: 300,
            text: " bye".to_string(),
            tokens: vec![utt(150, 300, " bye"), utt(300, 300, "[_TT_300]")],
        },
    ];
    let t = Transcript::from_segments(&segments, true, Duration::from_secs(2)).unwrap();
    assert_eq!(t.processing_time, Duration::from_secs(2));
    let segs: Vec<(i64, i64, String)> =
        t.utterances.iter().map(|u| (u.start, u.end, u.text.clone())).collect();
    assert_eq!(
        segs,
        vec![(0, 150, " hello there".to_string()), (150, 300, " bye".to_string())]
    );
    let words: Vec<(i64, i64, String)> = t
        .word_utterances
        .as_ref()
        .unwrap()
        .iter()
        .map(|u| (u.start, u.end, u.text.clone()))
        .collect();
    assert_eq!(
        words,
        vec![
            (0, 80, " hello".to_string()),
            (80, 150, " there".to_string()),
            (150, 300, " bye".to_string())
        ]
    );
}

#[test]
fn segments_without_word_timestamps_have_no_words() {
    let segments = vec![Segment {
        start: 10,
        end: 20,
        text: "a".to_string(),
        tokens: vec![utt(10, 20, "a")],
    }];
    let t = Transcript::from_segments(&segments, false, Duration::from_secs(0)).unwrap();
    assert_eq!(t.utterances.len(), 1);
    assert!(t.word_utterances.is_none());
    assert_eq!(t.as_lrc(), "[00:00.10]a\n[00:00.20]\n");
}
