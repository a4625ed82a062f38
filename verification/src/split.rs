//! Splitting and probing support: executable discovery fallbacks, status
//! assembly, duration formatting, segment naming, and the argument lists of
//! the external transcoder and prober invocations.
//!
//! Nothing here runs a process or touches the filesystem: the caller probes,
//! launches and enumerates, and these functions decide names, arguments and
//! results from plain values.

use vstd::prelude::*;

use crate::text::spec_dec;
use crate::text::spec_pad2;
use crate::text::spec_pad3;
use crate::text::append_dec;
use crate::text::dec_string;
use crate::text::append_pad2;
use crate::text::append_pad3;
use crate::text::spec_rfind;
use crate::text::spec_find;
use crate::text::lemma_find_props;
use crate::text::find_char;
use crate::text::lemma_rfind_props;
use crate::text::rfind_char;
use crate::text::str_eq;

verus! {

/// What a finished split reported.
pub struct SplitResult {
    pub success: bool,
    pub output_files: Vec<String>,
    pub error: Option<String>,
}

/// What probing for the external tools reported.
pub struct FFmpegStatus {
    pub found: bool,
    pub ffmpeg_path: Option<String>,
    pub ffprobe_path: Option<String>,
    pub version: Option<String>,
    pub os_info: String,
    pub error: Option<String>,
}

/// The message reported when the external tools are missing.
pub open spec fn spec_missing_tools_message() -> Seq<char> {
    "FFmpeg is not installed or could not be found."@
}

/// Assembles the probe status from what the filesystem probe found: the
/// tools count as found when both paths are present, and only a missing
/// tool produces an error message.
pub fn ffmpeg_status(
    ffmpeg_path: Option<String>,
    ffprobe_path: Option<String>,
    version: Option<String>,
    os_info: String,
) -> (r: FFmpegStatus)
    ensures
        r.found == (ffmpeg_path is Some && ffprobe_path is Some),
        r.ffmpeg_path == ffmpeg_path,
        r.ffprobe_path == ffprobe_path,
        r.os_info == os_info,
        r.found ==> r.version == version && r.error is None,
        !r.found ==> r.version is None && (match r.error {
            Some(m) => m@ == spec_missing_tools_message(),
            None => false,
        }),
{
    let found = ffmpeg_path.is_some() && ffprobe_path.is_some();
    if found {
        FFmpegStatus { found, ffmpeg_path, ffprobe_path, version, os_info, error: None }
    } else {
        let message = "FFmpeg is not installed or could not be found.";
        FFmpegStatus {
            found,
            ffmpeg_path,
            ffprobe_path,
            version: None,
            os_info,
            error: Some(message.to_owned()),
        }
    }
}

/// The executable to invoke: the probed absolute path when one was found,
/// else the bare name, leaving resolution to the system's search path.
pub fn get_executable(name: &str, found: Option<String>) -> (r: String)
    ensures
        match found {
            Some(p) => r == p,
            None => r@ == name@,
        },
{
    match found {
        Some(p) => p,
        None => name.to_owned(),
    }
}

/// The well-known directories probed for an executable, per platform:
/// each candidate is the directory joined with the executable's file name.
pub fn common_paths(os: &str, name: &str) -> (r: Vec<String>)
    ensures
        os@ == "macos"@ ==> r@.len() == 3 && r@[0]@ == "/opt/homebrew/bin/"@ + name@ && r@[1]@
            == "/usr/local/bin/"@ + name@ && r@[2]@ == "/usr/bin/"@ + name@,
        os@ == "windows"@ ==> r@.len() == 3 && r@[0]@ == "C:\\Program Files\\ffmpeg\\bin\\"@
            + name@ + ".exe"@ && r@[1]@ == "C:\\ffmpeg\\bin\\"@ + name@ + ".exe"@ && r@[2]@
            == "C:\\Program Files (x86)\\ffmpeg\\bin\\"@ + name@ + ".exe"@,
        os@ != "macos"@ && os@ != "windows"@ ==> r@.len() == 3 && r@[0]@ == "/usr/bin/"@ + name@
            && r@[1]@ == "/usr/local/bin/"@ + name@ && r@[2]@ == "/snap/bin/"@ + name@,
{
    proof {
        reveal_strlit("macos");
        reveal_strlit("windows");
        assert("macos"@.len() == 5);
        assert("windows"@.len() == 7);
        assert("macos"@ != "windows"@);
    }
    let mut r: Vec<String> = Vec::new();
    if str_eq(os, "macos") {
        r.push("/opt/homebrew/bin/".to_owned().concat(name));
        r.push("/usr/local/bin/".to_owned().concat(name));
        r.push("/usr/bin/".to_owned().concat(name));
    } else if str_eq(os, "windows") {
        r.push("C:\\Program Files\\ffmpeg\\bin\\".to_owned().concat(name).concat(".exe"));
        r.push("C:\\ffmpeg\\bin\\".to_owned().concat(name).concat(".exe"));
        r.push("C:\\Program Files (x86)\\ffmpeg\\bin\\".to_owned().concat(name).concat(".exe"));
    } else {
        r.push("/usr/bin/".to_owned().concat(name));
        r.push("/usr/local/bin/".to_owned().concat(name));
        r.push("/snap/bin/".to_owned().concat(name));
    }
    r
}

/// The display label of an operating-system name.
pub fn os_label<'a>(os: &'a str) -> (r: &'a str)
    ensures
        os@ == "macos"@ ==> r@ == "macOS"@,
        os@ == "linux"@ ==> r@ == "Linux"@,
        os@ == "windows"@ ==> r@ == "Windows"@,
        os@ != "macos"@ && os@ != "linux"@ && os@ != "windows"@ ==> r@ == os@,
{
    proof {
        reveal_strlit("macos");
        reveal_strlit("linux");
        reveal_strlit("windows");
        assert("macos"@.len() == 5);
        assert("linux"@.len() == 5);
        assert("windows"@.len() == 7);
        assert("macos"@[0] == 'm');
        assert("linux"@[0] == 'l');
        assert("macos"@ != "linux"@);
        assert("macos"@ != "windows"@);
        assert("linux"@ != "windows"@);
    }
    if str_eq(os, "macos") {
        "macOS"
    } else if str_eq(os, "linux") {
        "Linux"
    } else if str_eq(os, "windows") {
        "Windows"
    } else {
        os
    }
}

/// The display label of a machine architecture.
pub fn arch_label<'a>(arch: &'a str) -> (r: &'a str)
    ensures
        arch@ == "x86_64"@ ==> r@ == "x64"@,
        arch@ == "aarch64"@ ==> r@ == "ARM64"@,
        arch@ != "x86_64"@ && arch@ != "aarch64"@ ==> r@ == arch@,
{
    proof {
        reveal_strlit("x86_64");
        reveal_strlit("aarch64");
        assert("x86_64"@.len() == 6);
        assert("aarch64"@.len() == 7);
        assert("x86_64"@ != "aarch64"@);
    }
    if str_eq(arch, "x86_64") {
        "x64"
    } else if str_eq(arch, "aarch64") {
        "ARM64"
    } else {
        arch
    }
}

/// The display form of platform information: `{os} ({arch})`.
pub fn os_info_string(os_name: &str, arch_name: &str) -> (r: String)
    ensures
        r@ == os_name@ + " ("@ + arch_name@ + ")"@,
{
    os_name.to_owned().concat(" (").concat(arch_name).concat(")")
}

/// The index of the last path-separator character (either direction), or -1.
pub open spec fn spec_last_sep(s: Seq<char>) -> int {
    if spec_rfind(s, '/') >= spec_rfind(s, '\\') {
        spec_rfind(s, '/')
    } else {
        spec_rfind(s, '\\')
    }
}

/// The final component of a path: everything after the last separator.
pub open spec fn spec_file_name(s: Seq<char>) -> Seq<char> {
    s.subrange(spec_last_sep(s) + 1, s.len() as int)
}

/// The final component of a path, with `unknown` standing in where the path
/// has none (it ends in a separator, or names the parent directory).
pub fn file_name_of(path: &str) -> (r: String)
    ensures
        spec_file_name(path@).len() == 0 || spec_file_name(path@) == ".."@ ==> r@ == "unknown"@,
        spec_file_name(path@).len() > 0 && spec_file_name(path@) != ".."@ ==> r@
            == spec_file_name(path@),
{
    let n = path.unicode_len();
    proof {
        lemma_rfind_props(path@, '/');
        lemma_rfind_props(path@, '\\');
    }
    let slash = rfind_char(path, '/');
    let bslash = rfind_char(path, '\\');
    let start: usize = match (slash, bslash) {
        (Some(a), Some(b)) => if a >= b {
            a + 1
        } else {
            b + 1
        },
        (Some(a), None) => a + 1,
        (None, Some(b)) => b + 1,
        (None, None) => 0,
    };
    let name = path.substring_char(start, n);
    if name.is_empty() || str_eq(name, "..") {
        "unknown".to_owned()
    } else {
        name.to_owned()
    }
}

/// The stem of a file name: the part before the final dot, or the whole
/// name when there is no dot or the name begins with its only dot.
pub open spec fn spec_stem(name: Seq<char>) -> Seq<char> {
    if spec_rfind(name, '.') <= 0 {
        name
    } else {
        name.subrange(0, spec_rfind(name, '.'))
    }
}

/// The extension of a file name: the part after the final dot, absent when
/// there is no dot past the first character.
pub open spec fn spec_extension(name: Seq<char>) -> Option<Seq<char>> {
    if spec_rfind(name, '.') <= 0 {
        None
    } else {
        Some(name.subrange(spec_rfind(name, '.') + 1, name.len() as int))
    }
}

/// The stem and extension a split derives its output names from, with the
/// fallbacks `video` and `mp4` where the path yields none.
pub fn stem_and_extension(path: &str) -> (r: (String, String))
    ensures
        ({
            let name = spec_file_name(path@);
            &&& (if spec_stem(name).len() == 0 {
                r.0@ == "video"@
            } else {
                r.0@ == spec_stem(name)
            })
            &&& (match spec_extension(name) {
                None => r.1@ == "mp4"@,
                Some(e) => r.1@ == e,
            })
        }),
{
    let n = path.unicode_len();
    proof {
        lemma_rfind_props(path@, '/');
        lemma_rfind_props(path@, '\\');
    }
    let slash = rfind_char(path, '/');
    let bslash = rfind_char(path, '\\');
    let start: usize = match (slash, bslash) {
        (Some(a), Some(b)) => if a >= b {
            a + 1
        } else {
            b + 1
        },
        (Some(a), None) => a + 1,
        (None, Some(b)) => b + 1,
        (None, None) => 0,
    };
    let name = path.substring_char(start, n);
    let nl = name.unicode_len();
    proof {
        lemma_rfind_props(name@, '.');
    }
    let dotted: Option<usize> = match rfind_char(name, '.') {
        Some(d) => if d > 0 {
            Some(d)
        } else {
            None
        },
        None => None,
    };
    match dotted {
        Some(d) => {
            let stem = name.substring_char(0, d).to_owned();
            let ext = name.substring_char(d + 1, nl).to_owned();
            (stem, ext)
        },
        None => {
            if name.is_empty() {
                ("video".to_owned(), "mp4".to_owned())
            } else {
                (name.to_owned(), "mp4".to_owned())
            }
        },
    }
}

/// A duration in whole seconds as `HH:MM:SS` (hours may take more than two
/// characters when the duration calls for it).
pub open spec fn spec_format_duration(total_seconds: nat) -> Seq<char> {
    spec_pad2(total_seconds / 3600) + ":"@ + spec_pad2((total_seconds % 3600) / 60) + ":"@
        + spec_pad2(total_seconds % 60)
}

/// Formats a duration of whole seconds as `HH:MM:SS`.
pub fn format_duration(total_seconds: u64) -> (r: String)
    ensures
        r@ == spec_format_duration(total_seconds as nat),
{
    let mut s = String::new();
    append_pad2(&mut s, total_seconds / 3600);
    s.append(":");
    append_pad2(&mut s, (total_seconds % 3600) / 60);
    s.append(":");
    append_pad2(&mut s, total_seconds % 60);
    assert(s@ =~= spec_format_duration(total_seconds as nat));
    s
}

/// How many segments a split of `duration_ms` into segments of
/// `segment_seconds` produces: the quotient rounded up, saturated to the
/// result's width.
pub open spec fn spec_total_segments(duration_ms: nat, segment_seconds: nat) -> nat {
    let m = segment_seconds * 1000;
    let c = duration_ms / m + (if duration_ms % m > 0 {
        1nat
    } else {
        0nat
    });
    if c > u32::MAX {
        u32::MAX as nat
    } else {
        c
    }
}

/// How many segments a split produces.
pub fn total_segments(duration_ms: u64, segment_seconds: u32) -> (r: u32)
    requires
        segment_seconds >= 1,
    ensures
        r as nat == spec_total_segments(duration_ms as nat, segment_seconds as nat),
{
    let m: u64 = segment_seconds as u64 * 1000;
    let q: u64 = duration_ms / m;
    let rem: u64 = duration_ms % m;
    proof {
        vstd::arithmetic::div_mod::lemma_fundamental_div_mod(duration_ms as int, m as int);
        assert(q < u64::MAX) by (nonlinear_arith)
            requires
                m >= 1000,
                q >= 0,
                duration_ms == m * q + (duration_ms as int % m as int),
                duration_ms as int % m as int >= 0,
                duration_ms <= u64::MAX,
        ;
    }
    let c: u64 = q + (if rem > 0 {
        1
    } else {
        0
    });
    if c > u32::MAX as u64 {
        u32::MAX
    } else {
        c as u32
    }
}

/// The name of the numbered segment file `index` of a split:
/// `{dir}/{stem}_{index:03}.{ext}`.
pub open spec fn spec_segment_file_name(
    dir: Seq<char>,
    stem: Seq<char>,
    index: nat,
    ext: Seq<char>,
) -> Seq<char> {
    dir + "/"@ + stem + "_"@ + spec_pad3(index) + "."@ + ext
}

/// Builds the name of one numbered segment file of a split.
pub fn segment_file_name(dir: &str, stem: &str, index: u32, ext: &str) -> (r: String)
    ensures
        r@ == spec_segment_file_name(dir@, stem@, index as nat, ext@),
{
    let mut s = String::new();
    s.append(dir);
    s.append("/");
    s.append(stem);
    s.append("_");
    append_pad3(&mut s, index as u64);
    s.append(".");
    s.append(ext);
    assert(s@ =~= spec_segment_file_name(dir@, stem@, index as nat, ext@));
    s
}

/// The output pattern handed to the external splitter, matching
/// `segment_file_name` for indices below one thousand.
pub fn segment_output_pattern(dir: &str, stem: &str, ext: &str) -> (r: String)
    ensures
        r@ == dir@ + "/"@ + stem@ + "_%03d."@ + ext@,
{
    let mut s = String::new();
    s.append(dir);
    s.append("/");
    s.append(stem);
    s.append("_%03d.");
    s.append(ext);
    assert(s@ =~= dir@ + "/"@ + stem@ + "_%03d."@ + ext@);
    s
}

/// The argument list of a stream-copy split: no re-encoding, all streams
/// mapped, timestamps reset per segment, breaks only on keyframes.
pub fn split_args(input_path: &str, output_pattern: &str, segment_seconds: u32) -> (r: Vec<
    String,
>)
    ensures
        r@.len() == 16,
        r@[0]@ == "-y"@,
        r@[1]@ == "-i"@,
        r@[2]@ == input_path@,
        r@[3]@ == "-c"@,
        r@[4]@ == "copy"@,
        r@[5]@ == "-map"@,
        r@[6]@ == "0"@,
        r@[7]@ == "-f"@,
        r@[8]@ == "segment"@,
        r@[9]@ == "-segment_time"@,
        r@[10]@ == spec_dec(segment_seconds as nat),
        r@[11]@ == "-reset_timestamps"@,
        r@[12]@ == "1"@,
        r@[13]@ == "-break_non_keyframes"@,
        r@[14]@ == "0"@,
        r@[15]@ == output_pattern@,
{
    let mut r: Vec<String> = Vec::new();
    r.push("-y".to_owned());
    r.push("-i".to_owned());
    r.push(input_path.to_owned());
    r.push("-c".to_owned());
    r.push("copy".to_owned());
    r.push("-map".to_owned());
    r.push("0".to_owned());
    r.push("-f".to_owned());
    r.push("segment".to_owned());
    r.push("-segment_time".to_owned());
    r.push(dec_string(segment_seconds as u64));
    r.push("-reset_timestamps".to_owned());
    r.push("1".to_owned());
    r.push("-break_non_keyframes".to_owned());
    r.push("0".to_owned());
    r.push(output_pattern.to_owned());
    r
}

/// The argument list of the prober invocation that prints a source file's
/// duration, one number on standard output.
pub fn probe_duration_args(input_path: &str) -> (r: Vec<String>)
    ensures
        r@.len() == 7,
        r@[0]@ == "-v"@,
        r@[1]@ == "error"@,
        r@[2]@ == "-show_entries"@,
        r@[3]@ == "format=duration"@,
        r@[4]@ == "-of"@,
        r@[5]@ == "default=noprint_wrappers=1:nokey=1"@,
        r@[6]@ == input_path@,
{
    let mut r: Vec<String> = Vec::new();
    r.push("-v".to_owned());
    r.push("error".to_owned());
    r.push("-show_entries".to_owned());
    r.push("format=duration".to_owned());
    r.push("-of".to_owned());
    r.push("default=noprint_wrappers=1:nokey=1".to_owned());
    r.push(input_path.to_owned());
    r
}

/// Whitespace trimmed around the prober's printed duration.
pub open spec fn spec_is_ws(c: char) -> bool {
    c == ' ' || c == '\t' || c == '\r' || c == '\n'
}

/// The sequence with leading whitespace removed.
pub open spec fn spec_trim_front(s: Seq<char>) -> Seq<char>
    decreases s.len(),
{
    if s.len() > 0 && spec_is_ws(s[0]) {
        spec_trim_front(s.drop_first())
    } else {
        s
    }
}

/// The sequence with trailing whitespace removed.
pub open spec fn spec_trim_back(s: Seq<char>) -> Seq<char>
    decreases s.len(),
{
    if s.len() > 0 && spec_is_ws(s.last()) {
        spec_trim_back(s.drop_last())
    } else {
        s
    }
}

/// The sequence with whitespace removed on both ends.
pub open spec fn spec_trim(s: Seq<char>) -> Seq<char> {
    spec_trim_back(spec_trim_front(s))
}

/// A decimal digit character.
pub open spec fn spec_is_digit(c: char) -> bool {
    48 <= c as u32 && c as u32 <= 57
}

/// All characters are decimal digits.
pub open spec fn spec_all_digits(s: Seq<char>) -> bool {
    forall|i: int| 0 <= i < s.len() ==> spec_is_digit(s[i])
}

/// The value of a digit sequence read as a decimal number.
pub open spec fn spec_digits_val(s: Seq<char>) -> nat
    decreases s.len(),
{
    if s.len() == 0 {
        0
    } else {
        (spec_digits_val(s.drop_last()) * 10 + (s.last() as u32 - 48)) as nat
    }
}

/// Ten to the power `n`.
pub open spec fn spec_pow10(n: nat) -> nat
    decreases n,
{
    if n == 0 {
        1
    } else {
        10 * spec_pow10((n - 1) as nat)
    }
}

/// Powers of ten are positive.
pub proof fn lemma_pow10_pos(n: nat)
    ensures
        spec_pow10(n) >= 1,
    decreases n,
{
    if n > 0 {
        lemma_pow10_pos((n - 1) as nat);
    }
}

/// Powers of ten grow with the exponent.
pub proof fn lemma_pow10_le(i: nat, j: nat)
    requires
        i <= j,
    ensures
        spec_pow10(i) <= spec_pow10(j),
    decreases j,
{
    if i < j {
        lemma_pow10_le(i, (j - 1) as nat);
        lemma_pow10_pos((j - 1) as nat);
    }
}

/// The small powers of ten, and the bound the parser leans on.
pub proof fn lemma_pow10_vals()
    ensures
        spec_pow10(0) == 1,
        spec_pow10(1) == 10,
        spec_pow10(2) == 100,
        spec_pow10(3) == 1000,
        spec_pow10(16) == 10000000000000000,
{
    reveal_with_fuel(spec_pow10, 17);
}

/// A digit sequence's value is below ten to its length.
pub proof fn lemma_digits_val_bound(s: Seq<char>)
    requires
        spec_all_digits(s),
    ensures
        spec_digits_val(s) < spec_pow10(s.len()),
    decreases s.len(),
{
    if s.len() > 0 {
        assert(spec_all_digits(s.drop_last()));
        lemma_digits_val_bound(s.drop_last());
    }
}

/// The millisecond value of a fractional part: its first three digits,
/// zero-extended on the right when it is shorter.
pub open spec fn spec_frac_ms(fp: Seq<char>) -> nat {
    if fp.len() >= 3 {
        spec_digits_val(fp.take(3))
    } else {
        spec_digits_val(fp) * spec_pow10((3 - fp.len()) as nat)
    }
}

/// What the prober's printed duration parses to, in milliseconds: trimmed of
/// whitespace, it must be one to sixteen integer digits, optionally followed
/// by a dot and at least one fractional digit; the fraction is read at
/// millisecond precision. Anything else — `N/A`, empty output, a second dot,
/// an overlong integer part — parses to nothing.
pub open spec fn spec_parse_duration_ms(s: Seq<char>) -> Option<u64> {
    let t = spec_trim(s);
    let dot = spec_find(t, 0, '.');
    let ip = t.subrange(0, dot);
    let fp = t.subrange(
        if dot < t.len() {
            dot + 1
        } else {
            dot
        },
        t.len() as int,
    );
    if 1 <= ip.len() <= 16 && spec_all_digits(ip) && (dot == t.len() || (fp.len() >= 1
        && spec_all_digits(fp))) {
        Some((spec_digits_val(ip) * 1000 + spec_frac_ms(fp)) as u64)
    } else {
        None
    }
}

/// Whether the character at `i` is whitespace.
fn is_ws_at(s: &str, i: usize) -> (r: bool)
    requires
        i < s@.len(),
    ensures
        r == spec_is_ws(s@[i as int]),
{
    let c = s.get_char(i);
    c == ' ' || c == '\t' || c == '\r' || c == '\n'
}

/// Trims whitespace from both ends.
pub fn trim_str<'a>(s: &'a str) -> (r: &'a str)
    ensures
        r@ == spec_trim(s@),
{
    let n = s.unicode_len();
    let mut start: usize = 0;
    assert(s@.skip(0) =~= s@);
    while start < n && is_ws_at(s, start)
        invariant
            start <= n,
            n == s@.len(),
            spec_trim_front(s@) == spec_trim_front(s@.skip(start as int)),
        decreases n - start,
    {
        proof {
            assert(s@.skip(start as int).drop_first() =~= s@.skip(start as int + 1));
        }
        start = start + 1;
    }
    assert(spec_trim_front(s@) == s@.skip(start as int));
    let mut end: usize = n;
    assert(s@.skip(start as int) =~= s@.subrange(start as int, n as int));
    while end > start && is_ws_at(s, end - 1)
        invariant
            start <= end <= n,
            n == s@.len(),
            spec_trim_front(s@) == s@.skip(start as int),
            spec_trim(s@) == spec_trim_back(s@.subrange(start as int, end as int)),
        decreases end,
    {
        proof {
            assert(s@.subrange(start as int, end as int).drop_last() =~= s@.subrange(
                start as int,
                end as int - 1,
            ));
            assert(s@.subrange(start as int, end as int).last() == s@[end as int - 1]);
        }
        end = end - 1;
    }
    let t = s.substring_char(start, end);
    assert(t@ == spec_trim(s@));
    t
}

/// The first line of a command's output, trimmed of whitespace, when it is
/// non-empty: the shape in which a path probe reports its finding.
pub fn first_line_trimmed(s: &str) -> (r: Option<String>)
    ensures
        ({
            let line = spec_trim(s@.subrange(0, spec_find(s@, 0, '\n')));
            match r {
                Some(x) => line.len() > 0 && x@ == line,
                None => line.len() == 0,
            }
        }),
{
    let n = s.unicode_len();
    proof {
        lemma_find_props(s@, 0, '\n');
    }
    let e = find_char(s, 0, '\n');
    let line = s.substring_char(0, e);
    let trimmed = trim_str(line);
    if trimmed.is_empty() {
        None
    } else {
        Some(trimmed.to_owned())
    }
}

/// Parses the prober's printed duration into milliseconds.
#[verifier::rlimit(50)]
pub fn parse_duration_ms(s: &str) -> (r: Option<u64>)
    ensures
        r == spec_parse_duration_ms(s@),
{
    let t = trim_str(s);
    assert(t@ == spec_trim(s@));
    let ghost tv = t@;
    let tn = t.unicode_len();
    proof {
        lemma_find_props(tv, 0, '.');
    }
    let dot = find_char(t, 0, '.');
    let ghost ip = tv.subrange(0, dot as int);
    if dot < 1 || dot > 16 {
        return None;
    }
    let mut val: u64 = 0;
    let mut i: usize = 0;
    assert(ip.take(0) =~= Seq::<char>::empty());
    proof {
        lemma_pow10_vals();
    }
    while i < dot
        invariant
            i <= dot,
            1 <= dot <= 16,
            dot <= tn,
            tn == tv.len(),
            t@ == tv,
            tv == spec_trim(s@),
            dot as int == spec_find(tv, 0, '.'),
            ip == tv.subrange(0, dot as int),
            spec_all_digits(ip.take(i as int)),
            val == spec_digits_val(ip.take(i as int)),
            val < spec_pow10(i as nat),
            spec_pow10(16) == 10000000000000000,
        decreases dot - i,
    {
        let c = t.get_char(i);
        let cv = c as u32;
        if cv < 48 || cv > 57 {
            assert(!spec_is_digit(ip[i as int]));
            return None;
        }
        proof {
            assert(ip.take(i as int + 1).drop_last() =~= ip.take(i as int));
            assert(ip.take(i as int + 1).last() == ip[i as int]);
            lemma_pow10_le(i as nat + 1, 16);
        }
        val = val * 10 + (cv - 48) as u64;
        i = i + 1;
    }
    assert(ip.take(dot as int) =~= ip);
    if dot == tn {
        let ghost fp = tv.subrange(dot as int, tn as int);
        assert(fp =~= Seq::<char>::empty());
        proof {
            lemma_pow10_vals();
            lemma_digits_val_bound(ip);
            lemma_pow10_le(dot as nat, 16);
            assert(spec_digits_val(fp) == 0);
            assert(spec_frac_ms(fp) == 0);
            assert(val <= 9999999999999999);
            assert(val * 1000 + spec_frac_ms(fp) == val * 1000);
            assert(spec_parse_duration_ms(s@) == Some((spec_digits_val(ip) * 1000
                + spec_frac_ms(fp)) as u64));
        }
        return Some(val * 1000);
    }
    let ghost fp = tv.subrange(dot as int + 1, tn as int);
    let fplen = tn - dot - 1;
    if fplen == 0 {
        return None;
    }
    let mut j: usize = dot + 1;
    while j < tn
        invariant
            dot + 1 <= j <= tn,
            1 <= dot <= 16,
            tn == tv.len(),
            t@ == tv,
            tv == spec_trim(s@),
            dot as int == spec_find(tv, 0, '.'),
            fp == tv.subrange(dot as int + 1, tn as int),
            spec_all_digits(fp.take(j as int - dot - 1)),
        decreases tn - j,
    {
        let c = t.get_char(j);
        let cv = c as u32;
        if cv < 48 || cv > 57 {
            assert(!spec_is_digit(fp[j as int - dot - 1]));
            return None;
        }
        proof {
            assert(fp.take(j as int - dot) =~= fp.take(j as int - dot - 1).push(
                fp[j as int - dot - 1],
            ));
        }
        j = j + 1;
    }
    assert(fp.take(fplen as int) =~= fp);
    let k: usize = if fplen >= 3 {
        3
    } else {
        fplen
    };
    let mut fv: u64 = 0;
    let mut m: usize = 0;
    assert(fp.take(0) =~= Seq::<char>::empty());
    proof {
        lemma_pow10_vals();
    }
    while m < k
        invariant
            m <= k,
            k <= 3,
            k <= fplen,
            fplen == tv.len() - dot - 1,
            tn == tv.len(),
            t@ == tv,
            dot + 1 <= tn,
            fp == tv.subrange(dot as int + 1, tn as int),
            spec_all_digits(fp),
            fv == spec_digits_val(fp.take(m as int)),
            fv < spec_pow10(m as nat),
            spec_pow10(3) == 1000,
        decreases k - m,
    {
        let c = t.get_char(dot + 1 + m);
        proof {
            assert(fp[m as int] == tv[dot as int + 1 + m as int]);
            assert(fp.take(m as int + 1).drop_last() =~= fp.take(m as int));
            assert(fp.take(m as int + 1).last() == fp[m as int]);
            lemma_pow10_le(m as nat + 1, 3);
        }
        let cv = c as u32;
        assert(spec_is_digit(fp[m as int]));
        fv = fv * 10 + (cv - 48) as u64;
        m = m + 1;
    }
    assert(fv < spec_pow10(k as nat));
    proof {
        lemma_pow10_vals();
        if fplen < 3 {
            assert(fp.take(k as int) =~= fp);
        }
    }
    let mut frac: u64 = fv;
    if fplen == 1 {
        assert(fv <= 9);
        assert(fv * 100 <= 900) by (nonlinear_arith)
            requires
                fv <= 9,
        ;
        frac = fv * 100;
    } else if fplen == 2 {
        assert(fv <= 99);
        assert(fv * 10 <= 990) by (nonlinear_arith)
            requires
                fv <= 99,
        ;
        frac = fv * 10;
    }
    assert(frac == spec_frac_ms(fp));
    assert(frac <= 999);
    proof {
        lemma_digits_val_bound(ip);
        lemma_pow10_le(dot as nat, 16);
    }
    assert(val <= 9999999999999999);
    Some(val * 1000 + frac)
}

/// A millisecond count as seconds with three decimals: `S.mmm`.
pub open spec fn spec_seconds_millis(ms: nat) -> Seq<char> {
    spec_dec(ms / 1000) + "."@ + spec_pad3(ms % 1000)
}

/// Formats a millisecond count as seconds with three decimals.
pub fn seconds_millis(ms: u64) -> (r: String)
    ensures
        r@ == spec_seconds_millis(ms as nat),
{
    let mut s = String::new();
    append_dec(&mut s, ms / 1000);
    s.append(".");
    append_pad3(&mut s, ms % 1000);
    assert(s@ =~= spec_seconds_millis(ms as nat));
    s
}

/// The argument list of the transcoder invocation that populates a cache
/// entry: seek to the quantized start, bound the output window, re-encode to
/// a segmented adaptive stream with a boundary forced at every multiple of
/// the segment duration, and write numbered segments plus the manifest into
/// the entry directory.
pub fn hls_transcode_args(
    input_path: &str,
    entry_dir: &str,
    aligned_start_ms: u64,
    window_seconds: u64,
    segment_seconds: u32,
) -> (r: Vec<String>)
    ensures
        r@.len() == 18,
        r@[0]@ == "-y"@,
        r@[1]@ == "-ss"@,
        r@[2]@ == spec_seconds_millis(aligned_start_ms as nat),
        r@[3]@ == "-t"@,
        r@[4]@ == spec_dec(window_seconds as nat),
        r@[5]@ == "-i"@,
        r@[6]@ == input_path@,
        r@[7]@ == "-f"@,
        r@[8]@ == "hls"@,
        r@[9]@ == "-hls_time"@,
        r@[10]@ == spec_dec(segment_seconds as nat),
        r@[11]@ == "-hls_list_size"@,
        r@[12]@ == "0"@,
        r@[13]@ == "-force_key_frames"@,
        r@[14]@ == "expr:gte(t,n_forced*"@ + spec_dec(segment_seconds as nat) + ")"@,
        r@[15]@ == "-hls_segment_filename"@,
        r@[16]@ == entry_dir@ + "/seg_%03d.ts"@,
        r@[17]@ == entry_dir@ + "/manifest"@,
{
    let mut r: Vec<String> = Vec::new();
    r.push("-y".to_owned());
    r.push("-ss".to_owned());
    r.push(seconds_millis(aligned_start_ms));
    r.push("-t".to_owned());
    r.push(dec_string(window_seconds));
    r.push("-i".to_owned());
    r.push(input_path.to_owned());
    r.push("-f".to_owned());
    r.push("hls".to_owned());
    r.push("-hls_time".to_owned());
    r.push(dec_string(segment_seconds as u64));
    r.push("-hls_list_size".to_owned());
    r.push("0".to_owned());
    r.push("-force_key_frames".to_owned());
    let mut kf = String::new();
    kf.append("expr:gte(t,n_forced*");
    append_dec(&mut kf, segment_seconds as u64);
    kf.append(")");
    assert(kf@ =~= "expr:gte(t,n_forced*"@ + spec_dec(segment_seconds as nat) + ")"@);
    r.push(kf);
    r.push("-hls_segment_filename".to_owned());
    let seg_pattern = entry_dir.to_owned().concat("/seg_%03d.ts");
    r.push(seg_pattern);
    let manifest = entry_dir.to_owned().concat("/manifest");
    r.push(manifest);
    r
}

} // verus!

