use conv::command::{merge, SCRATCH_OUTPUT, TRANSCODER};
use conv::paths::{extension, with_extension};

#[test]
fn extension_of_plain_names() {
    assert_eq!(extension("music/song.srt"), Some("srt".to_string()));
    assert_eq!(extension("a/b.tar.gz"), Some("gz".to_string()));
    assert_eq!(extension("C:\\lyrics\\x.lrc"), Some("lrc".to_string()));
    assert_eq!(extension("trailing."), Some("".to_string()));
}

#[test]
fn names_without_extension() {
    assert_eq!(extension("noext"), None);
    assert_eq!(extension(".hidden"), None);
    assert_eq!(extension("dir.d/file"), None);
    assert_eq!(extension("dir/.hidden"), None);
    assert_eq!(extension(""), None);
}

#[test]
fn with_extension_replaces_or_appends() {
    assert_eq!(with_extension("music/song.mp3", "mp4"), "music/song.mp4");
    assert_eq!(with_extension("C:\\a.b\\track.wav", "mp4"), "C:\\a.b\\track.mp4");
    assert_eq!(with_extension("music/song", "mp4"), "music/song.mp4");
    assert_eq!(with_extension("dir.d/file", "srt"), "dir.d/file.srt");
}

#[test]
fn merge_builds_both_passes() {
    let (first, second) = merge("a.mp3", "bg.png", "x.srt", "a.mp4");
    assert_eq!(TRANSCODER, "ffmpeg");
    assert_eq!(
        first,
        vec![
            "-y", "-loop", "1", "-r", "30", "-i", "bg.png", "-i", "a.mp3", "-c:v", "libx264",
            "-c:a", "aac", "-pix_fmt", "yuv420p", "-vf", "scale=-2:min(1080\\,trunc(ih/2)*2)",
            "-shortest", SCRATCH_OUTPUT,
        ]
    );
    assert_eq!(second, vec!["-y", "-i", "out.mp4", "-vf", "subtitles=x.srt", "a.mp4"]);
}
