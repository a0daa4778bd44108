//! The transcoder invocations that make one video.
//!
//! A video is made in two passes: the first loops the still image at a fixed
//! frame rate under the audio, encodes both and stops with the shorter
//! stream, writing a scratch file in the working directory; the second burns
//! the subtitles into the scratch file and writes the output.
use vstd::prelude::*;

verus! {

/// The transcoder binary.
pub const TRANSCODER: &'static str = "ffmpeg";

/// The scratch file that the first pass writes in the working directory.
pub const SCRATCH_OUTPUT: &'static str = "out.mp4";

/// The extension of made videos.
pub const CONTAINER_EXTENSION: &'static str = "mp4";

pub open spec fn mux_args(audio: Seq<char>, image: Seq<char>) -> Seq<Seq<char>> {
    seq![
        "-y"@,
        "-loop"@,
        "1"@,
        "-r"@,
        "30"@,
        "-i"@,
        image,
        "-i"@,
        audio,
        "-c:v"@,
        "libx264"@,
        "-c:a"@,
        "aac"@,
        "-pix_fmt"@,
        "yuv420p"@,
        "-vf"@,
        "scale=-2:min(1080\\,trunc(ih/2)*2)"@,
        "-shortest"@,
        SCRATCH_OUTPUT@,
    ]
}

pub open spec fn burn_args(subtitle: Seq<char>, output: Seq<char>) -> Seq<Seq<char>> {
    seq!["-y"@, "-i"@, SCRATCH_OUTPUT@, "-vf"@, "subtitles="@ + subtitle, output]
}

pub open spec fn views(v: Seq<String>) -> Seq<Seq<char>> {
    v.map_values(|s: String| s@)
}

fn push_arg(args: &mut Vec<String>, a: &str)
    ensures
        views(final(args)@) == views(old(args)@).push(a@),
{
    args.push(String::from_str(a));
    assert(views(args@) =~= views(old(args)@).push(a@));
}

/// The argument lists of the two transcoder passes that turn `audio`,
/// `image` and `subtitle` into the video `output`.
pub fn merge(audio: &str, image: &str, subtitle: &str, output: &str) -> (r: (
    Vec<String>,
    Vec<String>,
))
    ensures
        views(r.0@) == mux_args(audio@, image@),
        views(r.1@) == burn_args(subtitle@, output@),
{
    let mut first: Vec<String> = Vec::new();
    push_arg(&mut first, "-y");
    push_arg(&mut first, "-loop");
    push_arg(&mut first, "1");
    push_arg(&mut first, "-r");
    push_arg(&mut first, "30");
    push_arg(&mut first, "-i");
    push_arg(&mut first, image);
    push_arg(&mut first, "-i");
    push_arg(&mut first, audio);
    push_arg(&mut first, "-c:v");
    push_arg(&mut first, "libx264");
    push_arg(&mut first, "-c:a");
    push_arg(&mut first, "aac");
    push_arg(&mut first, "-pix_fmt");
    push_arg(&mut first, "yuv420p");
    push_arg(&mut first, "-vf");
    push_arg(&mut first, "scale=-2:min(1080\\,trunc(ih/2)*2)");
    push_arg(&mut first, "-shortest");
    push_arg(&mut first, SCRATCH_OUTPUT);
    assert(views(first@) =~= mux_args(audio@, image@));

    let mut second: Vec<String> = Vec::new();
    push_arg(&mut second, "-y");
    push_arg(&mut second, "-i");
    push_arg(&mut second, SCRATCH_OUTPUT);
    push_arg(&mut second, "-vf");
    let mut filter = String::from_str("subtitles=");
    filter.append(subtitle);
    push_arg(&mut second, filter.as_str());
    push_arg(&mut second, output);
    assert(views(second@) =~= burn_args(subtitle@, output@));
    (first, second)
}

} // verus!
