//! Speech transcripts and their rendering as LRC lyrics and SRT subtitles.
//!
//! Times are centiseconds from the start of the audio, as the recognition
//! engine reports them. The LRC rendering gives each utterance two lines:
//! `[mm:ss.cc]text` at its start and a bare `[mm:ss.cc]` at its end, which
//! clears the line in players that show one lyric at a time.
use std::time::Duration;
use vstd::prelude::*;

use crate::text::{digits, padded, push_char, push_digits, push_padded, quot, rem};

verus! {

/// A span of recognised speech.
pub struct Utterance {
    pub start: i64,
    pub end: i64,
    pub text: String,
}

/// The result of one recognition run.
pub struct Transcript {
    pub processing_time: Duration,
    pub utterances: Vec<Utterance>,
    pub word_utterances: Option<Vec<Utterance>>,
}

/// One segment as the recognition engine reports it, with its tokens.
pub struct Segment {
    pub start: i64,
    pub end: i64,
    pub text: String,
    pub tokens: Vec<Utterance>,
}

#[derive(Debug, Clone, Copy, PartialEq, Eq, Structural)]
pub enum TranscribeError {
    /// The engine found no speech segment in the audio.
    NoSegments,
}

impl Utterance {
    pub fn copy(&self) -> (r: Utterance)
        ensures
            r == *self,
    {
        Utterance { start: self.start, end: self.end, text: self.text.clone() }
    }
}

impl Transcript {
    /// The utterances that the renderings use: the word-level ones where
    /// they were recorded, else the segment-level ones.
    pub open spec fn shown(&self) -> Seq<Utterance> {
        match self.word_utterances {
            Some(w) => w@,
            None => self.utterances@,
        }
    }
}

/// `[mm:ss.cc]` for a time of `t` centiseconds.
pub open spec fn lrc_stamp(t: int) -> Seq<char> {
    seq!['['] + padded(quot(quot(t, 100), 60), 2) + seq![':'] + padded(rem(quot(t, 100), 60), 2)
        + seq!['.'] + padded(rem(t, 100), 2) + seq![']']
}

pub open spec fn lrc_entry(u: Utterance) -> Seq<char> {
    lrc_stamp(u.start as int) + u.text@ + seq!['\n'] + lrc_stamp(u.end as int) + seq!['\n']
}

pub open spec fn lrc_text(us: Seq<Utterance>) -> Seq<char>
    decreases us.len(),
{
    if us.len() == 0 {
        seq![]
    } else {
        lrc_text(us.drop_last()) + lrc_entry(us.last())
    }
}

/// `hh:mm:ss,mmm` for a time of `t` centiseconds.
pub open spec fn srt_stamp(t: int) -> Seq<char> {
    padded(quot(quot(t, 100), 3600), 2) + seq![':'] + padded(rem(quot(quot(t, 100), 60), 60), 2)
        + seq![':'] + padded(rem(quot(t, 100), 60), 2) + seq![','] + padded(rem(t, 100) * 10, 3)
}

/// The cue numbered `n`.
pub open spec fn srt_cue(n: nat, u: Utterance) -> Seq<char> {
    digits(n) + seq!['\n'] + srt_stamp(u.start as int) + seq![' ', '-', '-', '>', ' ']
        + srt_stamp(u.end as int) + seq!['\n'] + u.text@ + seq!['\n', '\n']
}

/// Cues numbered from one, in order.
pub open spec fn srt_text(us: Seq<Utterance>) -> Seq<char>
    decreases us.len(),
{
    if us.len() == 0 {
        seq![]
    } else {
        srt_text(us.drop_last()) + srt_cue(us.len(), us.last())
    }
}

fn push_lrc_stamp(s: &mut String, t: i64)
    ensures
        final(s)@ == old(s)@ + lrc_stamp(t as int),
{
    let ghost start = s@;
    push_char(s, '[');
    push_padded(s, t / 100 / 60, 2);
    push_char(s, ':');
    push_padded(s, t / 100 % 60, 2);
    push_char(s, '.');
    push_padded(s, t % 100, 2);
    push_char(s, ']');
    assert(s@ =~= start + lrc_stamp(t as int));
}

fn push_srt_stamp(s: &mut String, t: i64)
    ensures
        final(s)@ == old(s)@ + srt_stamp(t as int),
{
    let ghost start = s@;
    push_padded(s, t / 100 / 3600, 2);
    push_char(s, ':');
    push_padded(s, t / 100 / 60 % 60, 2);
    push_char(s, ':');
    push_padded(s, t / 100 % 60, 2);
    push_char(s, ',');
    push_padded(s, t % 100 * 10, 3);
    assert(s@ =~= start + srt_stamp(t as int));
}

fn push_srt_cue(s: &mut String, n: u64, u: &Utterance)
    ensures
        final(s)@ == old(s)@ + srt_cue(n as nat, *u),
{
    let ghost start = s@;
    push_digits(s, n);
    push_char(s, '\n');
    push_srt_stamp(s, u.start);
    push_char(s, ' ');
    push_char(s, '-');
    push_char(s, '-');
    push_char(s, '>');
    push_char(s, ' ');
    push_srt_stamp(s, u.end);
    push_char(s, '\n');
    s.append(u.text.as_str());
    push_char(s, '\n');
    push_char(s, '\n');
    assert(s@ =~= start + srt_cue(n as nat, *u));
}

impl Transcript {
    /// The transcript as LRC lyrics.
    pub fn as_lrc(&self) -> (r: String)
        ensures
            r@ == lrc_text(self.shown()),
    {
        let list = match &self.word_utterances {
            Some(w) => w,
            None => &self.utterances,
        };
        let mut out = String::new();
        let n = list.len();
        for i in 0..n
            invariant
                n == list@.len(),
                list@ == self.shown(),
                out@ == lrc_text(list@.subrange(0, i as int)),
        {
            let ghost before = out@;
            let u = &list[i];
            push_lrc_stamp(&mut out, u.start);
            out.append(u.text.as_str());
            push_char(&mut out, '\n');
            push_lrc_stamp(&mut out, u.end);
            push_char(&mut out, '\n');
            assert(list@.subrange(0, i + 1).drop_last() =~= list@.subrange(0, i as int));
            assert(out@ =~= before + lrc_entry(list@[i as int]));
        }
        assert(list@.subrange(0, n as int) =~= list@);
        out
    }

    /// The transcript as SRT subtitles.
    pub fn as_srt(&self) -> (r: String)
        ensures
            r@ == srt_text(self.shown()),
    {
        let list = match &self.word_utterances {
            Some(w) => w,
            None => &self.utterances,
        };
        let mut out = String::new();
        let n = list.len();
        for i in 0..n
            invariant
                n == list@.len(),
                list@ == self.shown(),
                out@ == srt_text(list@.subrange(0, i as int)),
        {
            push_srt_cue(&mut out, i as u64 + 1, &list[i]);
            assert(list@.subrange(0, i + 1).drop_last() =~= list@.subrange(0, i as int));
        }
        assert(list@.subrange(0, n as int) =~= list@);
        out
    }
}

pub open spec fn segment_utterance(s: Segment) -> Utterance {
    Utterance { start: s.start, end: s.end, text: s.text }
}

/// Engine-internal tokens, such as timestamps and markers, carry a text
/// that starts with `[_`.
pub open spec fn control_token(text: Seq<char>) -> bool {
    text.len() >= 2 && text[0] == '[' && text[1] == '_'
}

/// The tokens of `ts` that are not control tokens, in order.
pub open spec fn spoken_tokens(ts: Seq<Utterance>) -> Seq<Utterance>
    decreases ts.len(),
{
    if ts.len() == 0 {
        seq![]
    } else if control_token(ts.last().text@) {
        spoken_tokens(ts.drop_last())
    } else {
        spoken_tokens(ts.drop_last()).push(ts.last())
    }
}

/// The spoken tokens of all segments, segment after segment.
pub open spec fn word_level(segs: Seq<Segment>) -> Seq<Utterance>
    decreases segs.len(),
{
    if segs.len() == 0 {
        seq![]
    } else {
        word_level(segs.drop_last()) + spoken_tokens(segs.last().tokens@)
    }
}

pub fn is_control_token(text: &str) -> (r: bool)
    ensures
        r == control_token(text@),
{
    text.unicode_len() >= 2 && text.get_char(0) == '[' && text.get_char(1) == '_'
}

fn push_spoken(words: &mut Vec<Utterance>, tokens: &Vec<Utterance>)
    ensures
        final(words)@ == old(words)@ + spoken_tokens(tokens@),
{
    let ghost start = words@;
    let n = tokens.len();
    for j in 0..n
        invariant
            n == tokens@.len(),
            words@ == start + spoken_tokens(tokens@.subrange(0, j as int)),
    {
        assert(tokens@.subrange(0, j + 1).drop_last() =~= tokens@.subrange(0, j as int));
        if !is_control_token(tokens[j].text.as_str()) {
            words.push(tokens[j].copy());
        }
        assert(words@ =~= start + spoken_tokens(tokens@.subrange(0, j + 1)));
    }
    assert(tokens@.subrange(0, n as int) =~= tokens@);
}

impl Transcript {
    /// Builds the transcript of one recognition run from the segments that
    /// the engine reported, keeping the spoken tokens as word-level
    /// utterances where `word_timestamps` asks for them.
    pub fn from_segments(segments: &Vec<Segment>, word_timestamps: bool, processing_time: Duration)
        -> (r: Result<Transcript, TranscribeError>)
        ensures
            r is Err <==> segments@.len() == 0,
            r matches Ok(t) ==> {
                &&& t.utterances@ == segments@.map_values(|s: Segment| segment_utterance(s))
                &&& t.word_utterances is Some <==> word_timestamps
                &&& t.word_utterances matches Some(w) ==> w@ == word_level(segments@)
                &&& t.processing_time == processing_time
            },
    {
        let n = segments.len();
        if n == 0 {
            return Err(TranscribeError::NoSegments);
        }
        let mut utterances: Vec<Utterance> = Vec::new();
        let mut words: Vec<Utterance> = Vec::new();
        for i in 0..n
            invariant
                n == segments@.len(),
                utterances@ == segments@.subrange(0, i as int).map_values(
                    |s: Segment| segment_utterance(s),
                ),
                word_timestamps ==> words@ == word_level(segments@.subrange(0, i as int)),
        {
            let seg = &segments[i];
            utterances.push(Utterance { start: seg.start, end: seg.end, text: seg.text.clone() });
            if word_timestamps {
                push_spoken(&mut words, &seg.tokens);
            }
            assert(segments@.subrange(0, i + 1).drop_last() =~= segments@.subrange(0, i as int));
            assert(utterances@ =~= segments@.subrange(0, i + 1).map_values(
                |s: Segment| segment_utterance(s),
            ));
        }
        assert(segments@.subrange(0, n as int) =~= segments@);
        Ok(Transcript {
            processing_time,
            utterances,
            word_utterances: if word_timestamps { Some(words) } else { None },
        })
    }
}

} // verus!
