//! Export of a transcript as plain text, SubRip (`.srt`) or WebVTT (`.vtt`).

use vstd::prelude::*;
use crate::text::{decimal, padded_int, push_char, push_decimal, push_padded, trim, trimmed};
use crate::transcript::TranscriptSegment;

verus! {

/// Rust's `/` on integers: the quotient rounded toward zero (`b > 0`).
pub open spec fn trunc_div(a: int, b: int) -> int {
    if a >= 0 { a / b } else { -((-a) / b) }
}

/// Rust's `%` on integers: the remainder that goes with [`trunc_div`].
pub open spec fn trunc_rem(a: int, b: int) -> int {
    a - b * trunc_div(a, b)
}

/// A time of `ms` milliseconds written `HH:MM:SS<sep>mmm`: hours, minutes
/// and seconds with at least two digits, milliseconds with at least three.
/// A negative time gives each nonzero field its own minus sign.
pub open spec fn timestamp_text(ms: int, sep: char) -> Seq<char> {
    padded_int(trunc_div(ms, 3_600_000), 2) + seq![':'] + padded_int(
        trunc_div(trunc_rem(ms, 3_600_000), 60_000),
        2,
    ) + seq![':'] + padded_int(trunc_div(trunc_rem(ms, 60_000), 1000), 2) + seq![sep]
        + padded_int(trunc_rem(ms, 1000), 3)
}

/// The fields of a written time add up to the time: hours, minutes, seconds
/// and milliseconds, minutes and seconds below 60 and milliseconds below
/// 1000 in absolute value, none of them negative for a time that is not.
pub proof fn law_timestamp_fields(ms: int)
    ensures
        ({
            let h = trunc_div(ms, 3_600_000);
            let m = trunc_div(trunc_rem(ms, 3_600_000), 60_000);
            let s = trunc_div(trunc_rem(ms, 60_000), 1000);
            let f = trunc_rem(ms, 1000);
            &&& h * 3_600_000 + m * 60_000 + s * 1000 + f == ms
            &&& -60 < m < 60
            &&& -60 < s < 60
            &&& -1000 < f < 1000
            &&& ms >= 0 ==> h >= 0 && m >= 0 && s >= 0 && f >= 0
        }),
{
    let a = if ms >= 0 { ms } else { -ms };
    assert((a % 3_600_000) % 60_000 == a % 60_000);
    assert((a % 60_000) % 1000 == a % 1000);
}

/// A written time is its hours, minutes, seconds and milliseconds, in that
/// order and zero-padded, for any fields that add up to the time with
/// minutes and seconds below 60 and milliseconds below 1000 in absolute
/// value and the sign of the time: such fields are the only ones a time has.
pub proof fn law_timestamp_text_fields(ms: int, sep: char, h: int, m: int, s: int, f: int)
    requires
        h * 3_600_000 + m * 60_000 + s * 1000 + f == ms,
        ms >= 0 ==> h >= 0 && 0 <= m < 60 && 0 <= s < 60 && 0 <= f < 1000,
        ms < 0 ==> h <= 0 && -60 < m <= 0 && -60 < s <= 0 && -1000 < f <= 0,
    ensures
        timestamp_text(ms, sep) == padded_int(h, 2) + seq![':'] + padded_int(m, 2) + seq![':']
            + padded_int(s, 2) + seq![sep] + padded_int(f, 3),
{
    if ms >= 0 {
        assert(ms / 3_600_000 == h);
        assert(ms % 3_600_000 == m * 60_000 + s * 1000 + f);
        assert((m * 60_000 + s * 1000 + f) / 60_000 == m);
        assert(ms % 60_000 == s * 1000 + f);
        assert((s * 1000 + f) / 1000 == s);
        assert(ms % 1000 == f);
    } else {
        let a = -ms;
        assert(a / 3_600_000 == -h);
        assert(trunc_div(ms, 3_600_000) == h);
        assert(trunc_rem(ms, 3_600_000) == m * 60_000 + s * 1000 + f);
        let r = -(m * 60_000 + s * 1000 + f);
        assert(r / 60_000 == -m);
        assert(trunc_div(trunc_rem(ms, 3_600_000), 60_000) == m);
        assert(a % 60_000 == -(s * 1000 + f));
        assert(trunc_rem(ms, 60_000) == s * 1000 + f);
        assert((-(s * 1000 + f)) / 1000 == -s);
        assert(trunc_div(trunc_rem(ms, 60_000), 1000) == s);
        assert(a % 1000 == -f);
        assert(trunc_rem(ms, 1000) == f);
    }
}

/// Writes a time of `millis_total` milliseconds as `HH:MM:SS<sep>mmm`.
pub fn format_timestamp(millis_total: i128, decimal_sep: char) -> (s: String)
    ensures
        s@ == timestamp_text(millis_total as int, decimal_sep),
{
    let negative = millis_total < 0;
    let mag: u128 = if negative {
        ((-(millis_total + 1)) as u128) + 1
    } else {
        millis_total as u128
    };
    let hours = mag / 3_600_000;
    let minutes = (mag % 3_600_000) / 60_000;
    let seconds = (mag % 60_000) / 1000;
    let millis = mag % 1000;
    proof {
        let ms = millis_total as int;
        let sg = |x: int| if negative { -x } else { x };
        assert(ms == sg(mag as int));
        assert(trunc_div(ms, 3_600_000) == sg(hours as int));
        assert(trunc_rem(ms, 3_600_000) == sg((mag % 3_600_000) as int));
        assert(trunc_div(trunc_rem(ms, 3_600_000), 60_000) == sg(minutes as int));
        assert(trunc_rem(ms, 60_000) == sg((mag % 60_000) as int));
        assert(trunc_div(trunc_rem(ms, 60_000), 1000) == sg(seconds as int));
        assert(trunc_rem(ms, 1000) == sg(millis as int));
    }
    let mut s = String::new();
    push_padded(&mut s, negative, hours, 2);
    push_char(&mut s, ':');
    push_padded(&mut s, negative, minutes, 2);
    push_char(&mut s, ':');
    push_padded(&mut s, negative, seconds, 2);
    push_char(&mut s, decimal_sep);
    push_padded(&mut s, negative, millis, 3);
    assert(s@ =~= timestamp_text(millis_total as int, decimal_sep));
    s
}


/// The export formats offered to the user.
#[derive(Debug, Clone, Copy, PartialEq, Eq)]
pub enum ExportFormat {
    Txt,
    Srt,
    Vtt,
}

/// The separator between a cue's start and end time.
pub open spec fn arrow() -> Seq<char> {
    seq![' ', '-', '-', '>', ' ']
}

/// SubRip entry for the segment at position `i`: its 1-based number, its
/// times with a comma before the milliseconds, its trimmed text, a blank line.
pub open spec fn srt_entry(i: nat, seg: TranscriptSegment) -> Seq<char> {
    decimal(i + 1) + seq!['\n'] + timestamp_text(seg.start_ms as int, ',') + arrow()
        + timestamp_text(seg.end_ms as int, ',') + seq!['\n'] + trimmed(seg.text@) + seq![
        '\n',
        '\n',
    ]
}

/// A SubRip document: the entries of all segments, in order.
pub open spec fn srt_text(segs: Seq<TranscriptSegment>) -> Seq<char>
    decreases segs.len(),
{
    if segs.len() == 0 {
        Seq::<char>::empty()
    } else {
        srt_text(segs.drop_last()) + srt_entry((segs.len() - 1) as nat, segs.last())
    }
}

/// WebVTT cue for a segment: its times with a dot before the milliseconds,
/// its trimmed text, a blank line.
pub open spec fn vtt_cue(seg: TranscriptSegment) -> Seq<char> {
    timestamp_text(seg.start_ms as int, '.') + arrow() + timestamp_text(seg.end_ms as int, '.')
        + seq!['\n'] + trimmed(seg.text@) + seq!['\n', '\n']
}

/// The cues of all segments, in order.
pub open spec fn vtt_cues(segs: Seq<TranscriptSegment>) -> Seq<char>
    decreases segs.len(),
{
    if segs.len() == 0 {
        Seq::<char>::empty()
    } else {
        vtt_cues(segs.drop_last()) + vtt_cue(segs.last())
    }
}

/// The WebVTT header: `WEBVTT` and a blank line.
pub open spec fn vtt_header() -> Seq<char> {
    seq!['W', 'E', 'B', 'V', 'T', 'T', '\n', '\n']
}

/// A WebVTT document: the header, then the cues of all segments.
pub open spec fn vtt_text(segs: Seq<TranscriptSegment>) -> Seq<char> {
    vtt_header() + vtt_cues(segs)
}

proof fn lemma_srt_prefix(segs: Seq<TranscriptSegment>, k: int)
    requires
        0 <= k <= segs.len(),
    ensures
        srt_text(segs.subrange(0, k)).len() <= srt_text(segs).len(),
        srt_text(segs).subrange(0, srt_text(segs.subrange(0, k)).len() as int) == srt_text(
            segs.subrange(0, k),
        ),
    decreases segs.len(),
{
    if k == segs.len() {
        assert(segs.subrange(0, k) =~= segs);
    } else {
        let d = segs.drop_last();
        assert(d.subrange(0, k) =~= segs.subrange(0, k));
        lemma_srt_prefix(d, k);
        assert(srt_text(segs) == srt_text(d) + srt_entry((segs.len() - 1) as nat, segs.last()));
    }
}

/// The SubRip document holds, for the segment at every 0-based position
/// `i`, an entry headed by the decimal number `i + 1` on a line of its own,
/// then the start and end times written `HH:MM:SS,mmm --> HH:MM:SS,mmm`,
/// then the trimmed text and a blank line; the entries stand in segment
/// order, each right after the one before it.
pub proof fn law_srt_entry_at(segs: Seq<TranscriptSegment>, i: int)
    requires
        0 <= i < segs.len(),
    ensures
        srt_text(segs.subrange(0, i + 1)) == srt_text(segs.subrange(0, i)) + (decimal(
            (i + 1) as nat,
        ) + seq!['\n'] + timestamp_text(segs[i].start_ms as int, ',') + seq![' ', '-', '-', '>', ' ']
            + timestamp_text(segs[i].end_ms as int, ',') + seq!['\n'] + trimmed(segs[i].text@)
            + seq!['\n', '\n']),
        srt_text(segs).subrange(0, srt_text(segs.subrange(0, i + 1)).len() as int) == srt_text(
            segs.subrange(0, i + 1),
        ),
{
    let p = segs.subrange(0, i + 1);
    assert(p.drop_last() =~= segs.subrange(0, i));
    assert(p.last() == segs[i]);
    assert(srt_text(p) == srt_text(p.drop_last()) + srt_entry(i as nat, p.last()));
    lemma_srt_prefix(segs, i + 1);
}

proof fn lemma_vtt_prefix(segs: Seq<TranscriptSegment>, k: int)
    requires
        0 <= k <= segs.len(),
    ensures
        vtt_cues(segs.subrange(0, k)).len() <= vtt_cues(segs).len(),
        vtt_cues(segs).subrange(0, vtt_cues(segs.subrange(0, k)).len() as int) == vtt_cues(
            segs.subrange(0, k),
        ),
    decreases segs.len(),
{
    if k == segs.len() {
        assert(segs.subrange(0, k) =~= segs);
    } else {
        let d = segs.drop_last();
        assert(d.subrange(0, k) =~= segs.subrange(0, k));
        lemma_vtt_prefix(d, k);
    }
}

/// The WebVTT document starts with `WEBVTT` and a blank line, then holds,
/// for every segment in order, a cue with its start and end written
/// `HH:MM:SS.mmm --> HH:MM:SS.mmm`, its trimmed text and a blank line.
pub proof fn law_vtt_cue_at(segs: Seq<TranscriptSegment>, i: int)
    requires
        0 <= i < segs.len(),
    ensures
        vtt_text(segs).subrange(0, 8) == seq!['W', 'E', 'B', 'V', 'T', 'T', '\n', '\n'],
        vtt_cues(segs.subrange(0, i + 1)) == vtt_cues(segs.subrange(0, i)) + (timestamp_text(
            segs[i].start_ms as int,
            '.',
        ) + seq![' ', '-', '-', '>', ' '] + timestamp_text(segs[i].end_ms as int, '.') + seq!['\n']
            + trimmed(segs[i].text@) + seq!['\n', '\n']),
        vtt_text(segs).subrange(8, 8 + vtt_cues(segs.subrange(0, i + 1)).len() as int) == vtt_cues(
            segs.subrange(0, i + 1),
        ),
{
    let p = segs.subrange(0, i + 1);
    assert(p.drop_last() =~= segs.subrange(0, i));
    assert(p.last() == segs[i]);
    assert(vtt_cues(p) == vtt_cues(p.drop_last()) + vtt_cue(p.last()));
    lemma_vtt_prefix(segs, i + 1);
    lemma_vtt_text_parts(vtt_cues(segs), vtt_cues(p).len() as int);
}

proof fn lemma_vtt_text_parts(c: Seq<char>, k: int)
    requires
        0 <= k <= c.len(),
    ensures
        (vtt_header() + c).subrange(0, 8) == seq!['W', 'E', 'B', 'V', 'T', 'T', '\n', '\n'],
        (vtt_header() + c).subrange(8, 8 + k) == c.subrange(0, k),
{
    assert((vtt_header() + c).subrange(0, 8) =~= vtt_header());
    assert((vtt_header() + c).subrange(8, 8 + k) =~= c.subrange(0, k));
}

fn push_str(out: &mut String, s: &str)
    ensures
        final(out)@ == old(out)@ + s@,
{
    out.append(s);
}

fn push_arrow(out: &mut String)
    ensures
        final(out)@ == old(out)@ + arrow(),
{
    push_char(out, ' ');
    push_char(out, '-');
    push_char(out, '-');
    push_char(out, '>');
    push_char(out, ' ');
    assert(final(out)@ =~= old(out)@ + arrow());
}

fn push_srt_entry(out: &mut String, i: usize, seg: &TranscriptSegment)
    requires
        i < usize::MAX,
    ensures
        final(out)@ == old(out)@ + srt_entry(i as nat, *seg),
{
    let ghost o0 = out@;
    push_decimal(out, i as u128 + 1);
    push_char(out, '\n');
    let ghost o1 = out@;
    assert(o1 == o0 + decimal(i as nat + 1) + seq!['\n']);
    let start = format_timestamp(seg.start_ms, ',');
    push_str(out, start.as_str());
    push_arrow(out);
    let end = format_timestamp(seg.end_ms, ',');
    push_str(out, end.as_str());
    push_char(out, '\n');
    let text = trim(seg.text.as_str());
    push_str(out, text.as_str());
    push_char(out, '\n');
    push_char(out, '\n');
    assert(final(out)@ =~= old(out)@ + srt_entry(i as nat, *seg));
}

fn push_vtt_cue(out: &mut String, seg: &TranscriptSegment)
    ensures
        final(out)@ == old(out)@ + vtt_cue(*seg),
{
    let start = format_timestamp(seg.start_ms, '.');
    push_str(out, start.as_str());
    push_arrow(out);
    let end = format_timestamp(seg.end_ms, '.');
    push_str(out, end.as_str());
    push_char(out, '\n');
    let text = trim(seg.text.as_str());
    push_str(out, text.as_str());
    push_char(out, '\n');
    push_char(out, '\n');
    assert(final(out)@ =~= old(out)@ + vtt_cue(*seg));
}

/// Renders the segments as a SubRip document.
pub fn to_srt(segments: &[TranscriptSegment]) -> (out: String)
    ensures
        out@ == srt_text(segments@),
{
    let mut out = String::new();
    let n = segments.len();
    let mut i: usize = 0;
    assert(segments@.subrange(0, 0) =~= Seq::<TranscriptSegment>::empty());
    while i < n
        invariant
            i <= n,
            n == segments@.len(),
            out@ == srt_text(segments@.subrange(0, i as int)),
        decreases n - i,
    {
        let seg = &segments[i];
        let ghost before = out@;
        push_srt_entry(&mut out, i, seg);
        assert(out@ =~= before + srt_entry(i as nat, *seg));
        assert(segments@.subrange(0, i + 1).drop_last() =~= segments@.subrange(0, i as int));
        i = i + 1;
    }
    assert(segments@.subrange(0, n as int) =~= segments@);
    out
}

/// Renders the segments as a WebVTT document.
pub fn to_vtt(segments: &[TranscriptSegment]) -> (out: String)
    ensures
        out@ == vtt_text(segments@),
{
    let mut out = String::new();
    push_char(&mut out, 'W');
    push_char(&mut out, 'E');
    push_char(&mut out, 'B');
    push_char(&mut out, 'V');
    push_char(&mut out, 'T');
    push_char(&mut out, 'T');
    push_char(&mut out, '\n');
    push_char(&mut out, '\n');
    assert(out@ =~= vtt_header());
    let n = segments.len();
    let mut i: usize = 0;
    assert(segments@.subrange(0, 0) =~= Seq::<TranscriptSegment>::empty());
    while i < n
        invariant
            i <= n,
            n == segments@.len(),
            out@ == vtt_header() + vtt_cues(segments@.subrange(0, i as int)),
        decreases n - i,
    {
        let seg = &segments[i];
        let ghost before = out@;
        push_vtt_cue(&mut out, seg);
        assert(out@ =~= before + vtt_cue(*seg));
        assert(segments@.subrange(0, i + 1).drop_last() =~= segments@.subrange(0, i as int));
        i = i + 1;
    }
    assert(segments@.subrange(0, n as int) =~= segments@);
    out
}

/// The content of an exported file: the full text as it is for `Txt`, the
/// rendered segments for `Srt` and `Vtt`.
pub fn export_content(format: ExportFormat, text: String, segments: &[TranscriptSegment]) -> (content: String)
    ensures
        content@ == match format {
            ExportFormat::Txt => text@,
            ExportFormat::Srt => srt_text(segments@),
            ExportFormat::Vtt => vtt_text(segments@),
        },
{
    match format {
        ExportFormat::Txt => text,
        ExportFormat::Srt => to_srt(segments),
        ExportFormat::Vtt => to_vtt(segments),
    }
}

} // verus!
