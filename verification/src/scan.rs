//! Path classification and encoder discovery: which files count as
//! videos, how dropped paths are sorted into videos, directories and
//! rejects, and how the encoder tool's own encoder listing is read.
//!
//! Filesystem questions (does a path exist, is it a directory) are
//! answered by the caller; the rules applied to the answers live here.

use vstd::prelude::*;
use crate::text::{
    to_chars, chars_eq, chars_to_string, sub_vec, to_lower, lower_seq, trim, trim_spec, split_ws,
    split_ws_spec, contains_sub, contains_seq,
};
use crate::media::{VideoInfo, JobStatus};

verus! {

/// The file extensions taken for video.
pub open spec fn is_video_ext(e: Seq<char>) -> bool {
    ||| e == "mp4"@
    ||| e == "mkv"@
    ||| e == "avi"@
    ||| e == "mov"@
    ||| e == "flv"@
    ||| e == "wmv"@
    ||| e == "webm"@
    ||| e == "m4v"@
    ||| e == "mpg"@
    ||| e == "mpeg"@
    ||| e == "3gp"@
    ||| e == "ts"@
    ||| e == "asf"@
    ||| e == "rmvb"@
    ||| e == "vob"@
    ||| e == "m2ts"@
    ||| e == "f4v"@
    ||| e == "mts"@
    ||| e == "ogv"@
    ||| e == "divx"@
    ||| e == "xvid"@
    ||| e == "rm"@
}

fn video_ext_exec(e: &Vec<char>) -> (r: bool)
    ensures
        r == is_video_ext(e@),
{
    chars_eq(e, &to_chars("mp4")) || chars_eq(e, &to_chars("mkv")) || chars_eq(e, &to_chars("avi"))
        || chars_eq(e, &to_chars("mov")) || chars_eq(e, &to_chars("flv")) || chars_eq(
        e,
        &to_chars("wmv"),
    ) || chars_eq(e, &to_chars("webm")) || chars_eq(e, &to_chars("m4v")) || chars_eq(
        e,
        &to_chars("mpg"),
    ) || chars_eq(e, &to_chars("mpeg")) || chars_eq(e, &to_chars("3gp")) || chars_eq(
        e,
        &to_chars("ts"),
    ) || chars_eq(e, &to_chars("asf")) || chars_eq(e, &to_chars("rmvb")) || chars_eq(
        e,
        &to_chars("vob"),
    ) || chars_eq(e, &to_chars("m2ts")) || chars_eq(e, &to_chars("f4v")) || chars_eq(
        e,
        &to_chars("mts"),
    ) || chars_eq(e, &to_chars("ogv")) || chars_eq(e, &to_chars("divx")) || chars_eq(
        e,
        &to_chars("xvid"),
    ) || chars_eq(e, &to_chars("rm"))
}

/// The file name of a path: what follows the last path separator.
pub open spec fn file_name_of(p: Seq<char>) -> Seq<char>
    decreases p.len(),
{
    if p.len() == 0 {
        p
    } else if p.last() == '/' || p.last() == '\\' {
        Seq::empty()
    } else {
        file_name_of(p.drop_last()).push(p.last())
    }
}

/// Position of the last `.` in a name, or `-1`.
pub open spec fn last_dot_pos(name: Seq<char>) -> int
    decreases name.len(),
{
    if name.len() == 0 {
        -1
    } else if name.last() == '.' {
        name.len() - 1
    } else {
        last_dot_pos(name.drop_last())
    }
}

/// The extension of a file name: what follows the last `.`, unless the
/// name has no dot or only a leading one.
pub open spec fn ext_of(name: Seq<char>) -> Option<Seq<char>> {
    let d = last_dot_pos(name);
    if d <= 0 {
        None
    } else {
        Some(name.skip(d + 1))
    }
}

/// Whether a path names a video file, judged by its extension alone,
/// case-insensitively; whether anything exists at the path is the
/// caller's question.
pub open spec fn has_video_extension(p: Seq<char>) -> bool {
    match ext_of(file_name_of(p)) {
        Some(e) => is_video_ext(lower_seq(e)),
        None => false,
    }
}

proof fn lemma_file_name_range(p: Seq<char>, a: int)
    requires
        0 <= a <= p.len(),
        forall|j: int| a <= j < p.len() ==> p[j] != '/' && p[j] != '\\',
        a > 0 ==> p[a - 1] == '/' || p[a - 1] == '\\',
    ensures
        file_name_of(p) == p.skip(a),
    decreases p.len(),
{
    if a == p.len() {
        if p.len() == 0 {
            assert(p.skip(a) =~= p);
        } else {
            assert(p.skip(a) =~= Seq::<char>::empty());
        }
    } else {
        assert(p.last() != '/' && p.last() != '\\');
        lemma_file_name_range(p.drop_last(), a);
        assert(p.drop_last().skip(a).push(p.last()) =~= p.skip(a));
    }
}

proof fn lemma_last_dot(name: Seq<char>, d: int)
    requires
        -1 <= d < name.len(),
        d >= 0 ==> name[d] == '.',
        forall|j: int| d < j < name.len() ==> name[j] != '.',
    ensures
        last_dot_pos(name) == d,
    decreases name.len(),
{
    if name.len() > 0 {
        if d == name.len() - 1 {
        } else {
            assert(name.last() != '.');
            lemma_last_dot(name.drop_last(), d);
        }
    }
}

/// Whether a path names a video file by its extension,
/// case-insensitively. Whether the path exists, and whether it is a
/// regular file, the caller checks on the filesystem.
pub fn is_video_file(path: &str) -> (r: bool)
    ensures
        r == has_video_extension(path@),
{
    let p = to_chars(path);
    let n = p.len();
    let mut a: usize = n;
    while a > 0 && !(p[a - 1] == '/' || p[a - 1] == '\\')
        invariant
            a <= n,
            n == p@.len(),
            forall|j: int| a <= j < n ==> p@[j] != '/' && p@[j] != '\\',
        decreases a,
    {
        a -= 1;
    }
    proof {
        lemma_file_name_range(p@, a as int);
    }
    let name = sub_vec(&p, a, n);
    proof {
        assert(name@ =~= p@.skip(a as int));
    }
    let m = name.len();
    let mut d: usize = m;
    while d > 0 && name[d - 1] != '.'
        invariant
            d <= m,
            m == name@.len(),
            forall|j: int| d <= j < m ==> name@[j] != '.',
        decreases d,
    {
        d -= 1;
    }
    if d <= 1 {
        proof {
            if d == 0 {
                lemma_last_dot(name@, -1);
            } else {
                lemma_last_dot(name@, 0);
            }
        }
        return false;
    }
    proof {
        lemma_last_dot(name@, d - 1);
    }
    let ext = sub_vec(&name, d, m);
    proof {
        assert(ext@ =~= name@.skip(d as int));
    }
    let low = to_lower(&ext);
    video_ext_exec(&low)
}

/// What the filesystem says a path is.
#[derive(Clone, Copy, Debug, PartialEq, Eq, Structural)]
pub enum PathKind {
    /// A regular file.
    File,
    /// A directory.
    Directory,
    /// Nothing, or something else.
    Missing,
}

/// A dropped path together with what the filesystem says it is.
pub struct PathEntry {
    /// The path as dropped.
    pub path: String,
    /// What stands at it.
    pub kind: PathKind,
}

/// What a scan over files and directories found.
pub struct ScanResult {
    /// Snapshots of the videos found, in the order met.
    pub videos: Vec<VideoInfo>,
    /// Descriptions of what could not be read.
    pub errors: Vec<String>,
}

/// Dropped paths sorted into videos, directories and rejects.
pub struct PathCategorization {
    /// Paths of video files, in the order dropped.
    pub videos: Vec<String>,
    /// Paths of directories, in the order dropped.
    pub directories: Vec<String>,
    /// Everything else, in the order dropped.
    pub invalid: Vec<String>,
}

/// Where one entry goes: directories first, then video files by
/// extension, the rest rejected.
pub open spec fn entry_class(kind: PathKind, p: Seq<char>) -> int {
    if kind == PathKind::Directory {
        0
    } else if kind == PathKind::File && has_video_extension(p) {
        1
    } else {
        2
    }
}

/// Sort dropped paths into videos, directories and rejects, keeping
/// their order.
pub fn categorize_paths(entries: Vec<PathEntry>) -> (r: PathCategorization)
    ensures
        r.videos@.map_values(|s: String| s@) =~= entries@.filter(
            |e: PathEntry| entry_class(e.kind, e.path@) == 1,
        ).map_values(|e: PathEntry| e.path@),
        r.directories@.map_values(|s: String| s@) =~= entries@.filter(
            |e: PathEntry| entry_class(e.kind, e.path@) == 0,
        ).map_values(|e: PathEntry| e.path@),
        r.invalid@.map_values(|s: String| s@) =~= entries@.filter(
            |e: PathEntry| entry_class(e.kind, e.path@) == 2,
        ).map_values(|e: PathEntry| e.path@),
{
    let mut videos: Vec<String> = Vec::new();
    let mut directories: Vec<String> = Vec::new();
    let mut invalid: Vec<String> = Vec::new();
    let mut i: usize = 0;
    while i < entries.len()
        invariant
            i <= entries@.len(),
            videos@.map_values(|s: String| s@) =~= entries@.subrange(0, i as int).filter(
                |e: PathEntry| entry_class(e.kind, e.path@) == 1,
            ).map_values(|e: PathEntry| e.path@),
            directories@.map_values(|s: String| s@) =~= entries@.subrange(0, i as int).filter(
                |e: PathEntry| entry_class(e.kind, e.path@) == 0,
            ).map_values(|e: PathEntry| e.path@),
            invalid@.map_values(|s: String| s@) =~= entries@.subrange(0, i as int).filter(
                |e: PathEntry| entry_class(e.kind, e.path@) == 2,
            ).map_values(|e: PathEntry| e.path@),
        decreases entries@.len() - i,
    {
        let ghost pre = entries@.subrange(0, i as int);
        let ghost vpre = videos@;
        let ghost dpre = directories@;
        let ghost ipre = invalid@;
        let e = &entries[i];
        let is_dir = e.kind == PathKind::Directory;
        let is_vid = e.kind == PathKind::File && is_video_file(e.path.as_str());
        if is_dir {
            directories.push(e.path.clone());
        } else if is_vid {
            videos.push(e.path.clone());
        } else {
            invalid.push(e.path.clone());
        }
        i += 1;
        proof {
            if entry_class(entries@[i - 1].kind, entries@[i - 1].path@) == 0 {
                assert(directories@ =~= dpre.push(directories@.last()));
                assert(directories@.last()@ == entries@[i - 1].path@);
                assert(directories@.map_values(|s: String| s@) =~= dpre.map_values(
                    |s: String| s@,
                ).push(entries@[i - 1].path@));
            } else if entry_class(entries@[i - 1].kind, entries@[i - 1].path@) == 1 {
                assert(videos@ =~= vpre.push(videos@.last()));
                assert(videos@.last()@ == entries@[i - 1].path@);
                assert(videos@.map_values(|s: String| s@) =~= vpre.map_values(
                    |s: String| s@,
                ).push(entries@[i - 1].path@));
            } else {
                assert(invalid@ =~= ipre.push(invalid@.last()));
                assert(invalid@.last()@ == entries@[i - 1].path@);
                assert(invalid@.map_values(|s: String| s@) =~= ipre.map_values(
                    |s: String| s@,
                ).push(entries@[i - 1].path@));
            }
            assert(entries@.subrange(0, i as int).drop_last() =~= pre);
            assert(entries@.subrange(0, i as int) =~= pre.push(entries@[i - 1]));
            reveal_with_fuel(Seq::filter, 2);
            assert(pre.push(entries@[i - 1]).filter(
                |e: PathEntry| entry_class(e.kind, e.path@) == 1,
            ) =~= if entry_class(entries@[i - 1].kind, entries@[i - 1].path@) == 1 {
                pre.filter(|e: PathEntry| entry_class(e.kind, e.path@) == 1).push(
                    entries@[i - 1],
                )
            } else {
                pre.filter(|e: PathEntry| entry_class(e.kind, e.path@) == 1)
            });
            assert(pre.push(entries@[i - 1]).filter(
                |e: PathEntry| entry_class(e.kind, e.path@) == 0,
            ) =~= if entry_class(entries@[i - 1].kind, entries@[i - 1].path@) == 0 {
                pre.filter(|e: PathEntry| entry_class(e.kind, e.path@) == 0).push(
                    entries@[i - 1],
                )
            } else {
                pre.filter(|e: PathEntry| entry_class(e.kind, e.path@) == 0)
            });
            assert(pre.push(entries@[i - 1]).filter(
                |e: PathEntry| entry_class(e.kind, e.path@) == 2,
            ) =~= if entry_class(entries@[i - 1].kind, entries@[i - 1].path@) == 2 {
                pre.filter(|e: PathEntry| entry_class(e.kind, e.path@) == 2).push(
                    entries@[i - 1],
                )
            } else {
                pre.filter(|e: PathEntry| entry_class(e.kind, e.path@) == 2)
            });
        }
    }
    proof {
        assert(entries@.subrange(0, entries@.len() as int) =~= entries@);
    }
    PathCategorization { videos, directories, invalid }
}

/// The placeholder text a freshly scanned entry shows until probing
/// fills it in.
pub open spec fn placeholder() -> Seq<char> {
    "..."@
}

/// The metadata snapshot a scan creates for a found video, before
/// probing: placeholders everywhere, status `Scanning`, and no score
/// fields.
pub fn scan_entry_info(name: String, path: String, size: u64) -> (r: VideoInfo)
    ensures
        r.name == name,
        r.path == path,
        r.size == size,
        r.resolution@ == placeholder(),
        r.bitrate@ == placeholder(),
        r.encoder@ == placeholder(),
        r.status == JobStatus::Scanning,
        r.progress == 0,
        r.duration_ms == 0,
        r.speed_milli is None,
        r.bitrate_milli is None,
        crate::media::has_no_score(r),
{
    VideoInfo {
        name,
        path,
        size,
        resolution: String::from_str("..."),
        bitrate: String::from_str("..."),
        encoder: String::from_str("..."),
        status: JobStatus::Scanning,
        progress: 0,
        duration_ms: 0,
        speed_milli: None,
        bitrate_milli: None,
        vmaf_milli: None,
        vmaf_device: None,
        vmaf_detail: None,
        vmaf_total_segments: None,
        vmaf_model: None,
    }
}

/// The name fragments that mark a hardware-accelerated encoder.
pub open spec fn is_hw_name(name: Seq<char>) -> bool {
    ||| contains_seq(name, "nvenc"@)
    ||| contains_seq(name, "amf"@)
    ||| contains_seq(name, "qsv"@)
    ||| contains_seq(name, "cuda"@)
    ||| contains_seq(name, "vaapi"@)
    ||| contains_seq(name, "vdpau"@)
    ||| contains_seq(name, "d3d12va"@)
}

/// Whether an encoder name marks a hardware-accelerated encoder.
pub fn is_hardware_encoder(name: &str) -> (r: bool)
    ensures
        r == is_hw_name(name@),
{
    let n = to_chars(name);
    contains_sub(&n, &to_chars("nvenc")) || contains_sub(&n, &to_chars("amf")) || contains_sub(
        &n,
        &to_chars("qsv"),
    ) || contains_sub(&n, &to_chars("cuda")) || contains_sub(&n, &to_chars("vaapi"))
        || contains_sub(&n, &to_chars("vdpau")) || contains_sub(&n, &to_chars("d3d12va"))
}

/// The display name an encoder is shown under.
pub fn encoder_display_name(name: &String, is_hw: bool) -> (r: String)
    ensures
        is_hw ==> r@ == name@ + " (HW)"@,
        !is_hw ==> r@ == name@ + " (CPU)"@,
{
    let mut s = name.clone();
    if is_hw {
        s.append(" (HW)");
    } else {
        s.append(" (CPU)");
    }
    s
}

/// One encoder offered by the tool.
pub struct DetectedEncoder {
    /// Display name, marked `(HW)` or `(CPU)`.
    pub name: String,
    /// Identifier handed to the tool.
    pub value: String,
    /// Whether the name marks it hardware-accelerated.
    pub is_hardware: bool,
    /// The tool's own description line.
    pub description: String,
}

/// Everything encoder discovery found.
pub struct DetectionReport {
    /// Video encoders that passed a trial invocation.
    pub video: Vec<DetectedEncoder>,
    /// Audio encoders that passed a trial invocation.
    pub audio: Vec<DetectedEncoder>,
    /// Diagnostic notes gathered on the way.
    pub log: Vec<String>,
}

/// One step of encoder discovery, as the notification channel carries
/// it.
pub struct DetectionProgress {
    /// `video` or `audio`.
    pub kind: String,
    /// Display name of the encoder tried.
    pub name: String,
    /// Identifier handed to the tool.
    pub value: String,
    /// Whether its trial invocation succeeded.
    pub available: bool,
}

/// How one line of the tool's encoder listing reads.
pub enum EncoderLine {
    /// A video encoder with its name and description.
    Video(Vec<char>, Vec<char>),
    /// An audio encoder with its name and description.
    Audio(Vec<char>, Vec<char>),
    /// A header, separator or otherwise unusable line.
    Skip,
}

/// The description text: the tokens after flags and name, joined with
/// single spaces.
pub open spec fn join_spaces(parts: Seq<Seq<char>>) -> Seq<char>
    decreases parts.len(),
{
    if parts.len() == 0 {
        Seq::empty()
    } else if parts.len() == 1 {
        parts[0]
    } else {
        join_spaces(parts.drop_last()) + " "@ + parts.last()
    }
}

/// Join tokens with single spaces.
pub fn join_with_spaces(parts: &Vec<Vec<char>>, from: usize) -> (r: Vec<char>)
    requires
        from <= parts@.len(),
    ensures
        r@ == join_spaces(parts@.skip(from as int).map_values(|t: Vec<char>| t@)),
    decreases parts@.len() - from,
{
    if from >= parts.len() {
        proof {
            assert(parts@.skip(from as int).map_values(|t: Vec<char>| t@) =~= Seq::<Seq<
                char,
            >>::empty());
        }
        return Vec::new();
    }
    if from == parts.len() - 1 {
        let r = sub_vec(&parts[from], 0, parts[from].len());
        proof {
            let m = parts@.skip(from as int).map_values(|t: Vec<char>| t@);
            assert(m.len() == 1);
            assert(m[0] == parts@[from as int]@);
            assert(r@ =~= parts@[from as int]@);
        }
        return r;
    }
    let mut r = join_with_spaces(parts, from + 1);
    let mut head = sub_vec(&parts[from], 0, parts[from].len());
    head.push(' ');
    let mut k: usize = 0;
    let ghost head0 = head@;
    while k < r.len()
        invariant
            k <= r@.len(),
            head@ =~= head0 + r@.subrange(0, k as int),
        decreases r@.len() - k,
    {
        head.push(r[k]);
        k += 1;
        proof {
            assert(head@ =~= head0 + r@.subrange(0, k as int));
        }
    }
    proof {
        reveal_strlit(" ");
        let tail = parts@.skip(from as int).map_values(|t: Vec<char>| t@);
        assert(head@ =~= head0 + r@);
        lemma_join_cons(tail);
        assert(tail.drop_first() =~= parts@.skip(from + 1).map_values(|t: Vec<char>| t@));
        assert(head0 =~= parts@[from as int]@ + " "@);
        assert(head@ =~= join_spaces(tail));
    }
    head
}

proof fn lemma_join_cons(parts: Seq<Seq<char>>)
    requires
        parts.len() >= 2,
    ensures
        join_spaces(parts) == parts[0] + " "@ + join_spaces(parts.drop_first()),
    decreases parts.len(),
{
    reveal_strlit(" ");
    if parts.len() == 2 {
        assert(parts.drop_last() =~= seq![parts[0]]);
        assert(parts.drop_first() =~= seq![parts[1]]);
        assert(join_spaces(parts) =~= parts[0] + " "@ + join_spaces(parts.drop_first()));
    } else {
        lemma_join_cons(parts.drop_last());
        assert(parts.drop_last().drop_first() =~= parts.drop_first().drop_last());
        assert(parts.drop_first().last() == parts.last());
        assert(parts.drop_last()[0] == parts[0]);
        assert(join_spaces(parts) == join_spaces(parts.drop_last()) + " "@ + parts.last());
        assert(parts.drop_first().len() >= 2);
        assert(join_spaces(parts.drop_first()) == join_spaces(parts.drop_first().drop_last())
            + " "@ + parts.drop_first().last());
        assert(join_spaces(parts) =~= parts[0] + " "@ + join_spaces(parts.drop_first()));
    }
}

/// How one line of the encoder listing reads: trimmed, skipped when
/// empty or a `-`/`=` header, otherwise split into flags, name and
/// description; a leading `V` flag marks video, a leading `A` audio.
pub open spec fn encoder_line_class(line: Seq<char>) -> int {
    let t = trim_spec(line);
    if t.len() == 0 || t[0] == '-' || t[0] == '=' {
        2
    } else {
        let toks = split_ws_spec(t);
        if toks.len() < 3 {
            2
        } else if toks[0].len() > 0 && toks[0][0] == 'V' {
            0
        } else if toks[0].len() > 0 && toks[0][0] == 'A' {
            1
        } else {
            2
        }
    }
}

/// The name token of a usable listing line.
pub open spec fn encoder_line_name(line: Seq<char>) -> Seq<char> {
    split_ws_spec(trim_spec(line))[1]
}

/// The description of a usable listing line.
pub open spec fn encoder_line_desc(line: Seq<char>) -> Seq<char> {
    join_spaces(split_ws_spec(trim_spec(line)).skip(2))
}

/// A video or audio encoder read from the tool's listing, before its
/// trial invocation.
pub struct RawEncoder {
    /// Identifier handed to the tool.
    pub name: String,
    /// The tool's own description.
    pub description: String,
}

/// Everything readable in the tool's encoder listing.
pub struct EncoderListing {
    /// Video encoders, in listing order.
    pub video: Vec<RawEncoder>,
    /// Audio encoders, in listing order.
    pub audio: Vec<RawEncoder>,
}

/// The `(name, description)` pairs of the listing lines of one class,
/// in order.
pub open spec fn listing_of(lines: Seq<Seq<char>>, class: int) -> Seq<(Seq<char>, Seq<char>)> {
    lines.filter(|l: Seq<char>| encoder_line_class(l) == class).map_values(
        |l: Seq<char>| (encoder_line_name(l), encoder_line_desc(l)),
    )
}

/// Read the tool's whole encoder listing, line by line: video encoders
/// under a leading `V` flag, audio under `A`, headers and separators
/// skipped.
pub fn parse_encoder_listing(text: &Vec<char>) -> (r: EncoderListing)
    ensures
        r.video@.map_values(|e: RawEncoder| (e.name@, e.description@)) =~= listing_of(
            crate::progress::split_char_spec(text@, '\n'),
            0,
        ),
        r.audio@.map_values(|e: RawEncoder| (e.name@, e.description@)) =~= listing_of(
            crate::progress::split_char_spec(text@, '\n'),
            1,
        ),
{
    let lines = crate::progress::split_char(text, '\n');
    let ghost lviews = lines@.map_values(|l: Vec<char>| l@);
    let mut video: Vec<RawEncoder> = Vec::new();
    let mut audio: Vec<RawEncoder> = Vec::new();
    let mut i: usize = 0;
    while i < lines.len()
        invariant
            i <= lines@.len(),
            lviews == lines@.map_values(|l: Vec<char>| l@),
            video@.map_values(|e: RawEncoder| (e.name@, e.description@)) =~= listing_of(
                lviews.subrange(0, i as int),
                0,
            ),
            audio@.map_values(|e: RawEncoder| (e.name@, e.description@)) =~= listing_of(
                lviews.subrange(0, i as int),
                1,
            ),
        decreases lines@.len() - i,
    {
        let ghost pre = lviews.subrange(0, i as int);
        let ghost vpre = video@;
        let ghost apre = audio@;
        match classify_encoder_line(&lines[i]) {
            EncoderLine::Video(name, desc) => {
                video.push(RawEncoder {
                    name: chars_to_string(&name),
                    description: chars_to_string(&desc),
                });
            },
            EncoderLine::Audio(name, desc) => {
                audio.push(RawEncoder {
                    name: chars_to_string(&name),
                    description: chars_to_string(&desc),
                });
            },
            EncoderLine::Skip => {},
        }
        i += 1;
        proof {
            assert(lviews.subrange(0, i as int) =~= pre.push(lviews[i - 1]));
            assert(lviews[i - 1] == lines@[i - 1]@);
            reveal_with_fuel(Seq::filter, 2);
            assert(pre.push(lviews[i - 1]).drop_last() =~= pre);
            assert(pre.push(lviews[i - 1]).last() == lviews[i - 1]);
            assert(pre.push(lviews[i - 1]).filter(|l: Seq<char>| encoder_line_class(l) == 0)
                =~= if encoder_line_class(lviews[i - 1]) == 0 {
                pre.filter(|l: Seq<char>| encoder_line_class(l) == 0).push(lviews[i - 1])
            } else {
                pre.filter(|l: Seq<char>| encoder_line_class(l) == 0)
            });
            assert(pre.push(lviews[i - 1]).filter(|l: Seq<char>| encoder_line_class(l) == 1)
                =~= if encoder_line_class(lviews[i - 1]) == 1 {
                pre.filter(|l: Seq<char>| encoder_line_class(l) == 1).push(lviews[i - 1])
            } else {
                pre.filter(|l: Seq<char>| encoder_line_class(l) == 1)
            });
            if encoder_line_class(lviews[i - 1]) == 0 {
                assert(video@ =~= vpre.push(video@.last()));
                assert(video@.map_values(|e: RawEncoder| (e.name@, e.description@)) =~= vpre
                    .map_values(|e: RawEncoder| (e.name@, e.description@)).push(
                    (encoder_line_name(lviews[i - 1]), encoder_line_desc(lviews[i - 1])),
                ));
            } else if encoder_line_class(lviews[i - 1]) == 1 {
                assert(audio@ =~= apre.push(audio@.last()));
                assert(audio@.map_values(|e: RawEncoder| (e.name@, e.description@)) =~= apre
                    .map_values(|e: RawEncoder| (e.name@, e.description@)).push(
                    (encoder_line_name(lviews[i - 1]), encoder_line_desc(lviews[i - 1])),
                ));
            }
            assert(video@.map_values(|e: RawEncoder| (e.name@, e.description@)) =~= listing_of(
                lviews.subrange(0, i as int),
                0,
            ));
            assert(audio@.map_values(|e: RawEncoder| (e.name@, e.description@)) =~= listing_of(
                lviews.subrange(0, i as int),
                1,
            ));
        }
    }
    proof {
        assert(lviews.subrange(0, lviews.len() as int) =~= lviews);
    }
    EncoderListing { video, audio }
}

/// Read one line of the tool's encoder listing.
pub fn classify_encoder_line(line: &Vec<char>) -> (r: EncoderLine)
    ensures
        match r {
            EncoderLine::Video(name, desc) => encoder_line_class(line@) == 0 && name@
                == encoder_line_name(line@) && desc@ == encoder_line_desc(line@),
            EncoderLine::Audio(name, desc) => encoder_line_class(line@) == 1 && name@
                == encoder_line_name(line@) && desc@ == encoder_line_desc(line@),
            EncoderLine::Skip => encoder_line_class(line@) == 2,
        },
{
    let t = trim(line);
    if t.len() == 0 {
        return EncoderLine::Skip;
    }
    if t[0] == '-' || t[0] == '=' {
        return EncoderLine::Skip;
    }
    let toks = split_ws(&t);
    if toks.len() < 3 {
        proof {
            assert(split_ws_spec(t@).len() == toks@.map_values(|x: Vec<char>| x@).len());
        }
        return EncoderLine::Skip;
    }
    proof {
        assert(split_ws_spec(t@).len() == toks@.map_values(|x: Vec<char>| x@).len());
        assert(split_ws_spec(t@)[0] == toks@.map_values(|x: Vec<char>| x@)[0]);
        assert(split_ws_spec(t@)[1] == toks@.map_values(|x: Vec<char>| x@)[1]);
    }
    let flags = &toks[0];
    if flags.len() == 0 {
        return EncoderLine::Skip;
    }
    let name = sub_vec(&toks[1], 0, toks[1].len());
    let desc = join_with_spaces(&toks, 2);
    proof {
        assert(name@ =~= split_ws_spec(t@)[1]);
        assert(toks@.skip(2).map_values(|x: Vec<char>| x@) =~= toks@.map_values(
            |x: Vec<char>| x@,
        ).skip(2));
    }
    if flags[0] == 'V' {
        EncoderLine::Video(name, desc)
    } else if flags[0] == 'A' {
        EncoderLine::Audio(name, desc)
    } else {
        EncoderLine::Skip
    }
}

} // verus!
