//! A look inside animation files: what they hold, and why one cannot be read.

use vstd::prelude::*;

use crate::bytes::{
    bytes_of_text, bytes_of_u32, le32, lemma_le32_back, lemma_stands_split, lemma_text_back, stands,
    text_at, there, writable, ByteCursor, TextFault,
};
use crate::names::views;
use crate::scalar::{scalar, Scalar};
use crate::text::{concat, decimal, decimal_digits, join, joined};

verus! {

/// Why a file cannot be read.
#[derive(Clone, Copy, PartialEq, Eq, Structural, Debug)]
pub enum AnimDiagError {
    Utf8,
    UnexpectedEof,
}

/// The name of a reason.
pub open spec fn reason(e: AnimDiagError) -> Seq<char> {
    match e {
        AnimDiagError::Utf8 => "Utf8"@,
        AnimDiagError::UnexpectedEof => "UnexpectedEof"@,
    }
}

fn reason_text(e: AnimDiagError) -> (r: &'static str)
    ensures
        r@ == reason(e),
{
    match e {
        AnimDiagError::Utf8 => "Utf8",
        AnimDiagError::UnexpectedEof => "UnexpectedEof",
    }
}

pub open spec fn text_reason(f: TextFault) -> AnimDiagError {
    match f {
        TextFault::Utf8 => AnimDiagError::Utf8,
        _ => AnimDiagError::UnexpectedEof,
    }
}

fn reason_of(f: TextFault) -> (r: AnimDiagError)
    ensures
        r == text_reason(f),
{
    match f {
        TextFault::Utf8 => AnimDiagError::Utf8,
        _ => AnimDiagError::UnexpectedEof,
    }
}

/// A clip of a file.
#[derive(Clone, Debug)]
pub struct ClipInfo {
    pub name: String,
    pub duration: Scalar,
    pub tracks: u32,
}

pub struct ClipView {
    pub name: Seq<char>,
    pub duration: Scalar,
    pub tracks: u32,
}

pub open spec fn clip_views(v: Seq<ClipInfo>) -> Seq<ClipView> {
    v.map_values(
        |c: ClipInfo| ClipView { name: c.name@, duration: c.duration, tracks: c.tracks },
    )
}

/// Where a track that starts at `pos` ends: behind its name, the number of its
/// keys and ten numbers for each key.
pub open spec fn track_end(data: Seq<u8>, pos: int) -> Result<int, AnimDiagError> {
    match text_at(data, pos) {
        Err(f) => Err(text_reason(f)),
        Ok((_, p)) => if !there(data, p, 4) || !there(data, p + 4, le32(data, p) * 40) {
            Err(AnimDiagError::UnexpectedEof)
        } else {
            Ok(p + 4 + le32(data, p) * 40)
        },
    }
}

pub open spec fn tracks_end(data: Seq<u8>, pos: int, n: nat) -> Result<int, AnimDiagError>
    decreases n,
{
    if n == 0 {
        Ok(pos)
    } else {
        match track_end(data, pos) {
            Err(e) => Err(e),
            Ok(p) => tracks_end(data, p, (n - 1) as nat),
        }
    }
}

/// The clip at `pos`, its tracks passed over, and where it ends.
pub open spec fn clip_at(data: Seq<u8>, pos: int) -> Result<(ClipView, int), AnimDiagError> {
    match text_at(data, pos) {
        Err(f) => Err(text_reason(f)),
        Ok((name, p)) => if !there(data, p, 4) || !there(data, p + 4, 4) {
            Err(AnimDiagError::UnexpectedEof)
        } else {
            let tracks = le32(data, p + 4);
            match tracks_end(data, p + 8, tracks as nat) {
                Err(e) => Err(e),
                Ok(q) => Ok((ClipView { name, duration: scalar(le32(data, p)), tracks }, q)),
            }
        },
    }
}

/// The `n` clips from `pos` on and where they end.
pub open spec fn clips_at(data: Seq<u8>, pos: int, n: nat) -> Result<
    (Seq<ClipView>, int),
    AnimDiagError,
>
    decreases n,
{
    if n == 0 {
        Ok((Seq::empty(), pos))
    } else {
        match clip_at(data, pos) {
            Err(e) => Err(e),
            Ok((c, p)) => match clips_at(data, p, (n - 1) as nat) {
                Err(e) => Err(e),
                Ok((rest, q)) => Ok((seq![c] + rest, q)),
            },
        }
    }
}

/// What stands behind the head of a file: its clips and what is left.
#[derive(Clone, Debug)]
pub struct AnimSetReport {
    pub clips: Vec<ClipInfo>,
    pub remaining: u64,
}

/// The clips behind the head of a file, and how many bytes follow them.
pub open spec fn report_at(data: Seq<u8>, pos: int) -> Result<(Seq<ClipView>, int), AnimDiagError> {
    if !there(data, pos, 4) {
        Err(AnimDiagError::UnexpectedEof)
    } else {
        match clips_at(data, pos + 4, le32(data, pos) as nat) {
            Err(e) => Err(e),
            Ok((clips, p)) => Ok(
                (
                    clips,
                    if p < data.len() {
                        data.len() - p
                    } else {
                        0
                    },
                ),
            ),
        }
    }
}

fn skip_track(cur: &mut ByteCursor) -> (r: Result<(), AnimDiagError>)
    ensures
        final(cur).data == old(cur).data,
        match (r, track_end(old(cur).data@, old(cur).pos as int)) {
            (Ok(_), Ok(p)) => final(cur).pos == p,
            (Err(e), Err(f)) => e == f,
            _ => false,
        },
{
    match cur.read_text() {
        Ok(_) => {},
        Err(f) => {
            return Err(reason_of(f));
        },
    }
    let keys: u32 = match cur.read_u32() {
        Some(n) => n,
        None => {
            return Err(AnimDiagError::UnexpectedEof);
        },
    };
    if cur.pass(keys as u64 * 40) {
        Ok(())
    } else {
        Err(AnimDiagError::UnexpectedEof)
    }
}

fn read_clip(cur: &mut ByteCursor) -> (r: Result<ClipInfo, AnimDiagError>)
    ensures
        final(cur).data == old(cur).data,
        match (r, clip_at(old(cur).data@, old(cur).pos as int)) {
            (Ok(c), Ok(v)) => c.name@ == v.0.name && c.duration == v.0.duration && c.tracks
                == v.0.tracks && final(cur).pos == v.1,
            (Err(e), Err(f)) => e == f,
            _ => false,
        },
{
    let ghost data = cur.data@;
    let ghost start = cur.pos as int;
    let name = match cur.read_text() {
        Ok(name) => name,
        Err(f) => {
            return Err(reason_of(f));
        },
    };
    let duration: u32 = match cur.read_u32() {
        Some(n) => n,
        None => {
            return Err(AnimDiagError::UnexpectedEof);
        },
    };
    let tracks: u32 = match cur.read_u32() {
        Some(n) => n,
        None => {
            return Err(AnimDiagError::UnexpectedEof);
        },
    };
    let ghost end = tracks_end(data, cur.pos as int, tracks as nat);
    let mut i: u32 = 0;
    while i < tracks
        invariant
            i <= tracks,
            cur.data == old(cur).data,
            data == cur.data@,
            end == tracks_end(data, cur.pos as int, (tracks - i) as nat),
            clip_at(data, start) == match end {
                Err(e) => Err(e),
                Ok(q) => Ok((ClipView { name: name@, duration: scalar(duration), tracks }, q)),
            },
            start == old(cur).pos,
        decreases tracks - i,
    {
        match skip_track(cur) {
            Ok(_) => {},
            Err(e) => {
                return Err(e);
            },
        }
        i = i + 1;
    }
    Ok(ClipInfo { name, duration: scalar(duration), tracks })
}

/// Reads what stands behind the head of a file.
pub fn parse_anim_set_debug(cur: &mut ByteCursor) -> (r: Result<AnimSetReport, AnimDiagError>)
    ensures
        final(cur).data == old(cur).data,
        match (r, report_at(old(cur).data@, old(cur).pos as int)) {
            (Ok(report), Ok(v)) => clip_views(report.clips@) == v.0 && report.remaining == v.1,
            (Err(e), Err(f)) => e == f,
            _ => false,
        },
{
    let ghost data = cur.data@;
    let ghost start = cur.pos as int;
    let count: u32 = match cur.read_u32() {
        Some(n) => n,
        None => {
            return Err(AnimDiagError::UnexpectedEof);
        },
    };
    let ghost all = clips_at(data, cur.pos as int, count as nat);
    let mut clips: Vec<ClipInfo> = Vec::new();
    let mut i: u32 = 0;
    proof {
        if let Ok((c, q)) = all {
            assert(clip_views(clips@) + c =~= c);
        }
    }
    while i < count
        invariant
            i <= count,
            cur.data == old(cur).data,
            data == cur.data@,
            start == old(cur).pos,
            there(data, start, 4),
            count == le32(data, start),
            all == clips_at(data, start + 4, count as nat),
            match clips_at(data, cur.pos as int, (count - i) as nat) {
                Err(e) => all == Err::<(Seq<ClipView>, int), AnimDiagError>(e),
                Ok((rest, q)) => all == Ok::<(Seq<ClipView>, int), AnimDiagError>(
                    (clip_views(clips@) + rest, q),
                ),
            },
        decreases count - i,
    {
        let ghost before = clips@;
        let ghost tail = clips_at(data, cur.pos as int, (count - i) as nat);
        match read_clip(cur) {
            Ok(c) => {
                let ghost v = ClipView { name: c.name@, duration: c.duration, tracks: c.tracks };
                clips.push(c);
                proof {
                    assert(clip_views(clips@) =~= clip_views(before).push(v));
                    match clips_at(data, cur.pos as int, (count - i - 1) as nat) {
                        Ok((rest, q)) => {
                            assert(tail == Ok::<(Seq<ClipView>, int), AnimDiagError>(
                                (seq![v] + rest, q),
                            ));
                            assert(clip_views(clips@) + rest =~= clip_views(before) + (seq![v]
                                + rest));
                        },
                        Err(e) => {},
                    }
                }
            },
            Err(e) => {
                return Err(e);
            },
        }
        i = i + 1;
    }
    assert(clip_views(clips@) + Seq::<ClipView>::empty() =~= clip_views(clips@));
    let remaining: u64 = cur.left();
    Ok(AnimSetReport { clips, remaining })
}

/// What a file gives: the reason where its head cannot be read, else its head,
/// and its contents where the head is right.
#[derive(Clone, Debug)]
pub enum AnimDiag {
    /// The mark at the start is not there.
    NoMagic(AnimDiagError),
    /// The version is not there.
    BadHeader(AnimDiagError),
    Read { magic: Vec<u8>, version: u32, body: AnimDiagBody },
}

#[derive(Clone, Debug)]
pub enum AnimDiagBody {
    InvalidMagic,
    UnsupportedVersion,
    Report(AnimSetReport),
    Broken(AnimDiagError),
}

/// The mark of an animation file.
pub open spec fn ads_mark() -> Seq<u8> {
    seq![0x41u8, 0x44u8, 0x53u8, 0u8]
}

/// Looks inside a file.
pub fn diagnose_anim_set(bytes: &Vec<u8>) -> (r: AnimDiag)
    ensures
        match r {
            AnimDiag::NoMagic(e) => !there(bytes@, 0, 4) && e == AnimDiagError::UnexpectedEof,
            AnimDiag::BadHeader(e) => there(bytes@, 0, 4) && !there(bytes@, 4, 4) && e
                == AnimDiagError::UnexpectedEof,
            AnimDiag::Read { magic, version, body } => {
                &&& there(bytes@, 4, 4)
                &&& magic@ == bytes@.subrange(0, 4)
                &&& version == le32(bytes@, 4)
                &&& match body {
                    AnimDiagBody::InvalidMagic => magic@ != ads_mark(),
                    AnimDiagBody::UnsupportedVersion => magic@ == ads_mark() && version != 1,
                    AnimDiagBody::Report(report) => magic@ == ads_mark() && version == 1 && (
                    report_at(bytes@, 8) matches Ok(v) && clip_views(report.clips@) == v.0
                        && report.remaining == v.1),
                    AnimDiagBody::Broken(e) => magic@ == ads_mark() && version == 1 && report_at(
                        bytes@,
                        8,
                    ) == Err::<(Seq<ClipView>, int), AnimDiagError>(e),
                }
            },
        },
{
    let mut cur = ByteCursor::new(bytes);
    let magic = match cur.read_bytes(4) {
        Some(m) => m,
        None => {
            return AnimDiag::NoMagic(AnimDiagError::UnexpectedEof);
        },
    };
    let version: u32 = match cur.read_u32() {
        Some(v) => v,
        None => {
            return AnimDiag::BadHeader(AnimDiagError::UnexpectedEof);
        },
    };
    let marked = magic[0] == 0x41 && magic[1] == 0x44 && magic[2] == 0x53 && magic[3] == 0;
    proof {
        if marked {
            assert(magic@ =~= ads_mark());
        } else {
            let m = ads_mark();
            assert(magic@[0] != m[0] || magic@[1] != m[1] || magic@[2] != m[2] || magic@[3] != m[3]);
        }
    }
    if !marked {
        return AnimDiag::Read { magic, version, body: AnimDiagBody::InvalidMagic };
    }
    if version != 1 {
        return AnimDiag::Read { magic, version, body: AnimDiagBody::UnsupportedVersion };
    }
    match parse_anim_set_debug(&mut cur) {
        Ok(report) => AnimDiag::Read { magic, version, body: AnimDiagBody::Report(report) },
        Err(e) => AnimDiag::Read { magic, version, body: AnimDiagBody::Broken(e) },
    }
}

/// The line of a clip, with its duration in writing.
pub open spec fn clip_line(i: nat, clip: ClipInfo, duration: Seq<char>) -> Seq<char> {
    "    ["@ + decimal_digits(i) + "] "@ + clip.name@ + "  duration:"@ + duration + "s  tracks:"@
        + decimal_digits(clip.tracks as nat)
}

pub open spec fn clip_lines(clips: Seq<ClipInfo>, durations: Seq<Seq<char>>) -> Seq<Seq<char>> {
    Seq::new(clips.len(), |i: int| clip_line(i as nat, clips[i], durations[i]))
}

pub open spec fn clip_names(clips: Seq<ClipInfo>) -> Seq<Seq<char>> {
    clips.map_values(|c: ClipInfo| c.name@)
}

/// The lines of a report.
pub open spec fn report_lines(report: AnimSetReport, durations: Seq<Seq<char>>) -> Seq<Seq<char>> {
    let head = seq!["  clips: "@ + decimal_digits(report.clips@.len())] + clip_lines(
        report.clips@,
        durations,
    ).push("  remaining bytes after clips: "@ + decimal_digits(report.remaining as nat));
    if report.clips@.len() == 0 {
        head
    } else {
        head.push("  clip names: "@ + joined(clip_names(report.clips@), ", "@))
    }
}

/// The lines behind the head of a file.
pub open spec fn body_lines(body: AnimDiagBody, durations: Seq<Seq<char>>) -> Seq<Seq<char>> {
    match body {
        AnimDiagBody::InvalidMagic => seq!["  status: invalid magic, expected ADS\0"@],
        AnimDiagBody::UnsupportedVersion => seq!["  status: unsupported version, expected 1"@],
        AnimDiagBody::Report(report) => report_lines(report, durations),
        AnimDiagBody::Broken(e) => seq!["  parse error: "@ + reason(e)],
    }
}

/// What the user is told of a file: its path, its size, its head and what
/// follows. `magic` is the mark in writing.
pub open spec fn diag_text(
    diag: AnimDiag,
    path: Seq<char>,
    size: nat,
    magic: Seq<char>,
    durations: Seq<Seq<char>>,
) -> Seq<char> {
    let title = "ADS diag: "@ + path;
    match diag {
        AnimDiag::NoMagic(e) => title + "\n  read error: "@ + reason(e),
        AnimDiag::BadHeader(e) => title + "\n  bad header: "@ + reason(e),
        AnimDiag::Read { magic: _, version, body } => joined(
            seq![
                title,
                "  size: "@ + decimal_digits(size) + " bytes"@,
                "  magic: "@ + magic,
                "  version: "@ + decimal_digits(version as nat),
            ] + body_lines(body, durations),
            "\n"@,
        ),
    }
}

fn write_report(report: &AnimSetReport, durations: &Vec<String>, lines: &mut Vec<String>)
    requires
        durations@.len() == report.clips@.len(),
    ensures
        views(final(lines)@) == views(old(lines)@) + report_lines(*report, views(durations@)),
{
    let ghost start = views(lines@);
    let clips = &report.clips;
    let total = decimal(clips.len() as u64);
    let first = concat("  clips: ", total.as_str());
    lines.push(first);
    let ghost head = start.push(first@);
    assert(views(lines@) =~= head);
    let mut names: Vec<String> = Vec::new();
    let mut i: usize = 0;
    assert(head + clip_lines(clips@, views(durations@)).take(0) =~= head);
    while i < clips.len()
        invariant
            i <= clips@.len(),
            clips@.len() == durations@.len(),
            names@.len() == i,
            forall|j: int| 0 <= j < i ==> (#[trigger] names@[j])@ == clips@[j].name@,
            views(lines@) == head + clip_lines(clips@, views(durations@)).take(i as int),
        decreases clips@.len() - i,
    {
        let ghost before = lines@;
        let index = decimal(i as u64);
        let tracks = decimal(clips[i].tracks as u64);
        let mut line = concat("    [", index.as_str());
        line.append("] ");
        line.append(clips[i].name.as_str());
        line.append("  duration:");
        line.append(durations[i].as_str());
        line.append("s  tracks:");
        line.append(tracks.as_str());
        proof {
            let all = clip_lines(clips@, views(durations@));
            assert(line@ == all[i as int]);
            assert(all.take(i + 1) =~= all.take(i as int).push(line@));
        }
        names.push(clips[i].name.clone());
        lines.push(line);
        proof {
            let all = clip_lines(clips@, views(durations@));
            assert(views(lines@) =~= views(before).push(line@));
            assert(views(before).push(line@) =~= head + all.take(i + 1));
        }
        i = i + 1;
    }
    let ghost before = lines@;
    let left = decimal(report.remaining);
    let rest = concat("  remaining bytes after clips: ", left.as_str());
    lines.push(rest);
    proof {
        let all = clip_lines(clips@, views(durations@));
        assert(all.take(i as int) =~= all);
        assert(views(before) == head + all);
        assert(views(lines@) =~= views(before).push(rest@));
        assert((head + all).push(rest@) =~= head + all.push(rest@));
        assert(head + all.push(rest@) =~= start + (seq![first@] + all.push(rest@)));
    }
    if clips.len() > 0 {
        let ghost upto = views(lines@);
        assert(views(names@) =~= clip_names(clips@));
        let list = join(&names, ", ");
        let line = concat("  clip names: ", list.as_str());
        lines.push(line);
        proof {
            let all = clip_lines(clips@, views(durations@));
            assert(views(lines@) =~= upto.push(line@));
            assert(views(lines@) =~= start + (seq![first@] + all.push(rest@)).push(line@));
        }
    }
}

/// The text of a look inside a file. `magic` and `durations` are the mark and
/// the durations of the clips in writing.
pub fn diagnose_anim_set_file(
    diag: &AnimDiag,
    path: &str,
    size: u64,
    magic: &str,
    durations: &Vec<String>,
) -> (r: String)
    requires
        diag matches AnimDiag::Read { body: AnimDiagBody::Report(report), .. }
            ==> durations@.len() == report.clips@.len(),
    ensures
        r@ == diag_text(*diag, path@, size as nat, magic@, views(durations@)),
{
    let title = concat("ADS diag: ", path);
    match diag {
        AnimDiag::NoMagic(e) => {
            let start = concat(title.as_str(), "\n  read error: ");
            concat(start.as_str(), reason_text(*e))
        },
        AnimDiag::BadHeader(e) => {
            let start = concat(title.as_str(), "\n  bad header: ");
            concat(start.as_str(), reason_text(*e))
        },
        AnimDiag::Read { magic: _, version, body } => {
            let n = decimal(size);
            let mut size_line = concat("  size: ", n.as_str());
            size_line.append(" bytes");
            let v = decimal(*version as u64);
            let mut lines: Vec<String> = Vec::new();
            let magic_line = concat("  magic: ", magic);
            let version_line = concat("  version: ", v.as_str());
            lines.push(title);
            lines.push(size_line);
            lines.push(magic_line);
            lines.push(version_line);
            let ghost head = seq![title@, size_line@, magic_line@, version_line@];
            assert(views(lines@) =~= head);
            match body {
                AnimDiagBody::InvalidMagic => {
                    lines.push("  status: invalid magic, expected ADS\0".to_string());
                    assert(views(lines@) =~= head + body_lines(*body, views(durations@)));
                },
                AnimDiagBody::UnsupportedVersion => {
                    lines.push("  status: unsupported version, expected 1".to_string());
                    assert(views(lines@) =~= head + body_lines(*body, views(durations@)));
                },
                AnimDiagBody::Report(report) => {
                    write_report(report, durations, &mut lines);
                },
                AnimDiagBody::Broken(e) => {
                    lines.push(concat("  parse error: ", reason_text(*e)));
                    assert(views(lines@) =~= head + body_lines(*body, views(durations@)));
                },
            }
            join(&lines, "\n")
        },
    }
}

/// A track as a file holds it: its name and forty bytes for each key.
#[verifier::ext_equal]
pub struct TrackLayout {
    pub name: Seq<char>,
    pub keys: u32,
    pub data: Seq<u8>,
}

impl TrackLayout {
    pub open spec fn valid(self) -> bool {
        writable(self.name) && self.data.len() == 40 * self.keys
    }

    pub open spec fn written(self) -> Seq<u8> {
        bytes_of_text(self.name) + (bytes_of_u32(self.keys) + self.data)
    }
}

/// A clip as a file holds it.
#[verifier::ext_equal]
pub struct ClipLayout {
    pub name: Seq<char>,
    pub duration: u32,
    pub tracks: Seq<TrackLayout>,
}

pub open spec fn written_tracks(tracks: Seq<TrackLayout>) -> Seq<u8>
    decreases tracks.len(),
{
    if tracks.len() == 0 {
        Seq::empty()
    } else {
        tracks[0].written() + written_tracks(tracks.drop_first())
    }
}

impl ClipLayout {
    pub open spec fn valid(self) -> bool {
        &&& writable(self.name)
        &&& self.tracks.len() <= u32::MAX
        &&& forall|i: int| 0 <= i < self.tracks.len() ==> (#[trigger] self.tracks[i]).valid()
    }

    pub open spec fn written(self) -> Seq<u8> {
        bytes_of_text(self.name) + (bytes_of_u32(self.duration) + (bytes_of_u32(
            self.tracks.len() as u32,
        ) + written_tracks(self.tracks)))
    }
}

pub open spec fn written_clips(clips: Seq<ClipLayout>) -> Seq<u8>
    decreases clips.len(),
{
    if clips.len() == 0 {
        Seq::empty()
    } else {
        clips[0].written() + written_clips(clips.drop_first())
    }
}

/// An animation file as it is written: the mark, the version one, its clips and
/// whatever follows them.
pub open spec fn ads_written(clips: Seq<ClipLayout>, rest: Seq<u8>) -> Seq<u8> {
    seq![0x41u8, 0x44u8, 0x53u8, 0u8] + (bytes_of_u32(1) + (bytes_of_u32(clips.len() as u32) + (
    written_clips(clips) + rest)))
}

proof fn lemma_track_back(data: Seq<u8>, pos: int, t: TrackLayout)
    requires
        t.valid(),
        stands(data, pos, t.written()),
    ensures
        track_end(data, pos) == Ok::<int, AnimDiagError>(pos + t.written().len()),
{
    let name = bytes_of_text(t.name);
    let p = pos + name.len();
    lemma_stands_split(data, pos, name, bytes_of_u32(t.keys) + t.data);
    lemma_stands_split(data, p, bytes_of_u32(t.keys), t.data);
    lemma_text_back(data, pos, t.name);
    lemma_le32_back(data, p, t.keys);
}

proof fn lemma_tracks_back(data: Seq<u8>, pos: int, tracks: Seq<TrackLayout>)
    requires
        forall|i: int| 0 <= i < tracks.len() ==> (#[trigger] tracks[i]).valid(),
        stands(data, pos, written_tracks(tracks)),
    ensures
        tracks_end(data, pos, tracks.len()) == Ok::<int, AnimDiagError>(
            pos + written_tracks(tracks).len(),
        ),
    decreases tracks.len(),
{
    if tracks.len() > 0 {
        let rest = tracks.drop_first();
        lemma_stands_split(data, pos, tracks[0].written(), written_tracks(rest));
        lemma_track_back(data, pos, tracks[0]);
        lemma_tracks_back(data, pos + tracks[0].written().len(), rest);
    }
}

proof fn lemma_clip_back(data: Seq<u8>, pos: int, c: ClipLayout)
    requires
        c.valid(),
        stands(data, pos, c.written()),
    ensures
        clip_at(data, pos) == Ok::<(ClipView, int), AnimDiagError>(
            (
                ClipView {
                    name: c.name,
                    duration: scalar(c.duration),
                    tracks: c.tracks.len() as u32,
                },
                pos + c.written().len(),
            ),
        ),
{
    let name = bytes_of_text(c.name);
    let count = bytes_of_u32(c.tracks.len() as u32);
    let tracks = written_tracks(c.tracks);
    let p = pos + name.len();
    lemma_stands_split(data, pos, name, bytes_of_u32(c.duration) + (count + tracks));
    lemma_stands_split(data, p, bytes_of_u32(c.duration), count + tracks);
    lemma_stands_split(data, p + 4, count, tracks);
    lemma_text_back(data, pos, c.name);
    lemma_le32_back(data, p, c.duration);
    lemma_le32_back(data, p + 4, c.tracks.len() as u32);
    lemma_tracks_back(data, p + 8, c.tracks);
}

proof fn lemma_clips_back(data: Seq<u8>, pos: int, clips: Seq<ClipLayout>)
    requires
        forall|i: int| 0 <= i < clips.len() ==> (#[trigger] clips[i]).valid(),
        stands(data, pos, written_clips(clips)),
    ensures
        clips_at(data, pos, clips.len()) matches Ok(got) && got.1 == pos + written_clips(
            clips,
        ).len() && got.0.len() == clips.len() && forall|i: int|
            0 <= i < clips.len() ==> #[trigger] got.0[i] == (ClipView {
                name: clips[i].name,
                duration: scalar(clips[i].duration),
                tracks: clips[i].tracks.len() as u32,
            }),
    decreases clips.len(),
{
    if clips.len() > 0 {
        let rest = clips.drop_first();
        let next = pos + clips[0].written().len();
        lemma_stands_split(data, pos, clips[0].written(), written_clips(rest));
        lemma_clip_back(data, pos, clips[0]);
        lemma_clips_back(data, next, rest);
        let got = clips_at(data, pos, clips.len())->Ok_0;
        let after = clips_at(data, next, rest.len())->Ok_0;
        assert forall|i: int| 0 <= i < clips.len() implies #[trigger] got.0[i] == (ClipView {
            name: clips[i].name,
            duration: scalar(clips[i].duration),
            tracks: clips[i].tracks.len() as u32,
        }) by {
            if i > 0 {
                assert(got.0[i] == after.0[i - 1]);
                assert(rest[i - 1] == clips[i]);
            }
        }
    }
}

proof fn lemma_ads_front(data: Seq<u8>, count: u32, clips: Seq<u8>, rest: Seq<u8>)
    requires
        data == seq![0x41u8, 0x44u8, 0x53u8, 0u8] + (bytes_of_u32(1) + (bytes_of_u32(count) + (clips
            + rest))),
    ensures
        data.len() == 12 + clips.len() + rest.len(),
        data.subrange(0, 4) == seq![0x41u8, 0x44u8, 0x53u8, 0u8],
        le32(data, 4) == 1,
        le32(data, 8) == count,
        stands(data, 12, clips),
{
    let tail = clips + rest;
    assert(data.subrange(0, data.len() as int) =~= data);
    lemma_stands_split(
        data,
        0,
        seq![0x41u8, 0x44u8, 0x53u8, 0u8],
        bytes_of_u32(1) + (bytes_of_u32(count) + tail),
    );
    lemma_stands_split(data, 4, bytes_of_u32(1), bytes_of_u32(count) + tail);
    lemma_stands_split(data, 8, bytes_of_u32(count), tail);
    lemma_stands_split(data, 12, clips, rest);
    lemma_le32_back(data, 4, 1);
    lemma_le32_back(data, 8, count);
}

/// Round trip: a file that is laid out by the format is reported with exactly its
/// clips, in order, each with its name, its duration and the number of its
/// tracks, and with as many bytes left as follow them.
pub proof fn law_ads_round_trip(bytes: &Vec<u8>, clips: Seq<ClipLayout>, rest: Seq<u8>, r: AnimDiag)
    requires
        call_ensures(diagnose_anim_set, (bytes,), r),
        bytes@ == ads_written(clips, rest),
        clips.len() <= u32::MAX,
        forall|i: int| 0 <= i < clips.len() ==> (#[trigger] clips[i]).valid(),
    ensures
        r matches AnimDiag::Read { version, body: AnimDiagBody::Report(report), .. } && version == 1
            && report.remaining == rest.len() && report.clips@.len() == clips.len() && forall|
            i: int,
        |
            0 <= i < clips.len() ==> (#[trigger] report.clips@[i]).name@ == clips[i].name
                && report.clips@[i].duration == scalar(clips[i].duration)
                && report.clips@[i].tracks == clips[i].tracks.len(),
{
    let data = bytes@;
    lemma_ads_front(data, clips.len() as u32, written_clips(clips), rest);
    lemma_clips_back(data, 12, clips);
    let got = clips_at(data, 12, clips.len())->Ok_0;
    assert(report_at(data, 8) == Ok::<(Seq<ClipView>, int), AnimDiagError>(
        (got.0, rest.len() as int),
    ));
    let report = r->body->Report_0;
    assert(clip_views(report.clips@) == got.0);
    assert(clip_views(report.clips@).len() == report.clips@.len());
    assert forall|i: int| 0 <= i < clips.len() implies (#[trigger] report.clips@[i]).name@
        == clips[i].name && report.clips@[i].duration == scalar(clips[i].duration)
        && report.clips@[i].tracks == clips[i].tracks.len() by {
        assert(clip_views(report.clips@)[i] == got.0[i]);
    }
}

/// A file of another kind: too short for a mark or for a version, of another
/// mark, or of another version.
pub proof fn law_ads_refused(bytes: &Vec<u8>, version: u32, rest: Seq<u8>, r: AnimDiag)
    requires
        call_ensures(diagnose_anim_set, (bytes,), r),
    ensures
        bytes@.len() < 4 ==> r == AnimDiag::NoMagic(AnimDiagError::UnexpectedEof),
        4 <= bytes@.len() < 8 ==> r == AnimDiag::BadHeader(AnimDiagError::UnexpectedEof),
        bytes@.len() >= 8 && bytes@.take(4) != seq![0x41u8, 0x44u8, 0x53u8, 0u8] ==> (
        r matches AnimDiag::Read { body, .. } && body is InvalidMagic),
        bytes@ == seq![0x41u8, 0x44u8, 0x53u8, 0u8] + (bytes_of_u32(version) + rest) && version
            != 1 ==> (r matches AnimDiag::Read { version: v, body, .. } && v == version
            && body is UnsupportedVersion),
{
    let data = bytes@;
    let mark = seq![0x41u8, 0x44u8, 0x53u8, 0u8];
    if data.len() >= 4 {
        assert(data.take(4) =~= data.subrange(0, 4));
    }
    if data == mark + (bytes_of_u32(version) + rest) {
        assert(data.subrange(0, data.len() as int) =~= data);
        lemma_stands_split(data, 0, mark, bytes_of_u32(version) + rest);
        lemma_stands_split(data, 4, bytes_of_u32(version), rest);
        lemma_le32_back(data, 4, version);
    }
}

/// The text is made of these lines: the title, the size, the mark and the version
/// of the file, and then what follows its head. A report lists its clips by
/// number, tells how many bytes are left and, where there are clips, their names.
pub open spec fn told(
    diag: AnimDiag,
    path: Seq<char>,
    size: nat,
    magic: Seq<char>,
    durations: Seq<String>,
    lines: Seq<Seq<char>>,
) -> bool {
    &&& diag is Read
    &&& lines.len() >= 5
    &&& lines[0] == "ADS diag: "@ + path
    &&& lines[1] == "  size: "@ + decimal_digits(size) + " bytes"@
    &&& lines[2] == "  magic: "@ + magic
    &&& lines[3] == "  version: "@ + decimal_digits(diag->version as nat)
    &&& match diag->body {
        AnimDiagBody::InvalidMagic => lines.len() == 5 && lines[4]
            == "  status: invalid magic, expected ADS\0"@,
        AnimDiagBody::UnsupportedVersion => lines.len() == 5 && lines[4]
            == "  status: unsupported version, expected 1"@,
        AnimDiagBody::Broken(e) => lines.len() == 5 && lines[4] == "  parse error: "@ + (
        if e is Utf8 {
            "Utf8"@
        } else {
            "UnexpectedEof"@
        }),
        AnimDiagBody::Report(report) => {
            let n = report.clips@.len() as int;
            &&& lines.len() == 6 + n + (if n > 0 {
                1int
            } else {
                0
            })
            &&& lines[4] == "  clips: "@ + decimal_digits(n as nat)
            &&& forall|k: int|
                0 <= k < n ==> #[trigger] lines[5 + k] == "    ["@ + decimal_digits(k as nat) + "] "@
                    + report.clips@[k].name@ + "  duration:"@ + durations[k]@ + "s  tracks:"@
                    + decimal_digits(report.clips@[k].tracks as nat)
            &&& lines[5 + n] == "  remaining bytes after clips: "@ + decimal_digits(
                report.remaining as nat,
            )
            &&& n > 0 ==> lines[6 + n] == "  clip names: "@ + joined(
                report.clips@.map_values(|c: ClipInfo| c.name@),
                ", "@,
            )
        },
    }
}

/// What the user reads of a file.
pub proof fn law_ads_texts(
    diag: &AnimDiag,
    path: &str,
    size: u64,
    magic: &str,
    durations: &Vec<String>,
    r: String,
    lines: Seq<Seq<char>>,
)
    requires
        call_ensures(diagnose_anim_set_file, (diag, path, size, magic, durations), r),
        diag matches AnimDiag::Read { body: AnimDiagBody::Report(report), .. }
            ==> durations@.len() == report.clips@.len(),
    ensures
        diag matches AnimDiag::NoMagic(e) ==> r@ == "ADS diag: "@ + path@ + "\n  read error: "@ + (
        if e is Utf8 {
            "Utf8"@
        } else {
            "UnexpectedEof"@
        }),
        diag matches AnimDiag::BadHeader(e) ==> r@ == "ADS diag: "@ + path@ + "\n  bad header: "@
            + (if e is Utf8 {
            "Utf8"@
        } else {
            "UnexpectedEof"@
        }),
        told(*diag, path@, size as nat, magic@, durations@, lines) ==> r@ == joined(lines, "\n"@),
{
    if told(*diag, path@, size as nat, magic@, durations@, lines) {
        let head = seq![
            "ADS diag: "@ + path@,
            "  size: "@ + decimal_digits(size as nat) + " bytes"@,
            "  magic: "@ + magic@,
            "  version: "@ + decimal_digits(diag->version as nat),
        ];
        let body = body_lines(diag->body, views(durations@));
        match diag->body {
            AnimDiagBody::Report(report) => {
                let n = report.clips@.len() as int;
                let all = head + body;
                assert(all.len() == lines.len());
                assert forall|k: int| 0 <= k < lines.len() implies all[k] == lines[k] by {
                    if 5 <= k < 5 + n {
                        let c = clip_lines(report.clips@, views(durations@));
                        assert(all[k] == c[k - 5]);
                        assert(lines[5 + (k - 5)] == c[k - 5]);
                    }
                }
                assert(all =~= lines);
            },
            _ => {
                assert(head + body =~= lines);
            },
        }
    }
}

} // verus!
