use preview_cache::split::{
    arch_label, common_paths, ffmpeg_status, file_name_of, first_line_trimmed, format_duration,
    get_executable, trim_str,
    hls_transcode_args, os_info_string, os_label, parse_duration_ms, probe_duration_args,
    seconds_millis, segment_file_name, segment_output_pattern, split_args, stem_and_extension,
    total_segments,
};

#[test]
fn executable_falls_back_to_name() {
    assert_eq!(get_executable("ffmpeg", Some("/usr/bin/ffmpeg".to_string())), "/usr/bin/ffmpeg");
    assert_eq!(get_executable("ffmpeg", None), "ffmpeg");
}

#[test]
fn common_paths_per_platform() {
    assert_eq!(
        common_paths("linux", "ffmpeg"),
        vec!["/usr/bin/ffmpeg", "/usr/local/bin/ffmpeg", "/snap/bin/ffmpeg"]
    );
    assert_eq!(
        common_paths("macos", "ffprobe"),
        vec!["/opt/homebrew/bin/ffprobe", "/usr/local/bin/ffprobe", "/usr/bin/ffprobe"]
    );
    assert_eq!(
        common_paths("windows", "ffmpeg"),
        vec![
            "C:\\Program Files\\ffmpeg\\bin\\ffmpeg.exe",
            "C:\\ffmpeg\\bin\\ffmpeg.exe",
            "C:\\Program Files (x86)\\ffmpeg\\bin\\ffmpeg.exe"
        ]
    );
}

#[test]
fn platform_labels() {
    assert_eq!(os_label("macos"), "macOS");
    assert_eq!(os_label("linux"), "Linux");
    assert_eq!(os_label("windows"), "Windows");
    assert_eq!(os_label("freebsd"), "freebsd");
    assert_eq!(arch_label("x86_64"), "x64");
    assert_eq!(arch_label("aarch64"), "ARM64");
    assert_eq!(arch_label("x86"), "x86");
    assert_eq!(os_info_string("Linux", "x64"), "Linux (x64)");
}

#[test]
fn status_found_when_both_tools_present() {
    let s = ffmpeg_status(
        Some("/usr/bin/ffmpeg".to_string()),
        Some("/usr/bin/ffprobe".to_string()),
        Some("ffmpeg version 6.0".to_string()),
        "Linux (x64)".to_string(),
    );
    assert!(s.found);
    assert_eq!(s.version.as_deref(), Some("ffmpeg version 6.0"));
    assert!(s.error.is_none());
}

#[test]
fn status_error_when_a_tool_is_missing() {
    let s = ffmpeg_status(
        Some("/usr/bin/ffmpeg".to_string()),
        None,
        None,
        "Linux (x64)".to_string(),
    );
    assert!(!s.found);
    assert!(s.version.is_none());
    assert_eq!(s.error.as_deref(), Some("FFmpeg is not installed or could not be found."));
}

#[test]
fn duration_formatting() {
    assert_eq!(format_duration(0), "00:00:00");
    assert_eq!(format_duration(59), "00:00:59");
    assert_eq!(format_duration(3661), "01:01:01");
    assert_eq!(format_duration(7325), "02:02:05");
    // More than 99 hours keeps the full hour count.
    assert_eq!(format_duration(360_000), "100:00:00");
}

#[test]
fn segment_counts_round_up() {
    assert_eq!(total_segments(10_000, 4), 3);
    assert_eq!(total_segments(8_000, 4), 2);
    assert_eq!(total_segments(8_001, 4), 3);
    assert_eq!(total_segments(0, 4), 0);
    assert_eq!(total_segments(1, 4), 1);
}

#[test]
fn path_names() {
    assert_eq!(file_name_of("/a/b/c.mp4"), "c.mp4");
    assert_eq!(file_name_of("clip.mkv"), "clip.mkv");
    assert_eq!(file_name_of("/a/b/"), "unknown");
    assert_eq!(file_name_of(".."), "unknown");
    assert_eq!(file_name_of("C:\\videos\\y.mp4"), "y.mp4");
}

#[test]
fn stems_and_extensions() {
    assert_eq!(stem_and_extension("/a/b/video.mp4"), ("video".to_string(), "mp4".to_string()));
    assert_eq!(stem_and_extension("/a/b/clip.mkv"), ("clip".to_string(), "mkv".to_string()));
    assert_eq!(stem_and_extension("/a/b/noext"), ("noext".to_string(), "mp4".to_string()));
    assert_eq!(stem_and_extension("/a/b/"), ("video".to_string(), "mp4".to_string()));
    assert_eq!(stem_and_extension("/a/.hidden"), (".hidden".to_string(), "mp4".to_string()));
    assert_eq!(stem_and_extension("/a/x.tar.gz"), ("x.tar".to_string(), "gz".to_string()));
}

#[test]
fn segment_names_are_zero_padded() {
    assert_eq!(segment_file_name("/out", "vid", 0, "mp4"), "/out/vid_000.mp4");
    assert_eq!(segment_file_name("/out", "vid", 7, "mp4"), "/out/vid_007.mp4");
    assert_eq!(segment_file_name("/out", "vid", 42, "mp4"), "/out/vid_042.mp4");
    assert_eq!(segment_file_name("/out", "vid", 1234, "mp4"), "/out/vid_1234.mp4");
    assert_eq!(segment_output_pattern("/out", "vid", "mp4"), "/out/vid_%03d.mp4");
}

#[test]
fn split_argument_list() {
    let args = split_args("/in/v.mp4", "/out/v_%03d.mp4", 30);
    assert_eq!(
        args,
        vec![
            "-y",
            "-i",
            "/in/v.mp4",
            "-c",
            "copy",
            "-map",
            "0",
            "-f",
            "segment",
            "-segment_time",
            "30",
            "-reset_timestamps",
            "1",
            "-break_non_keyframes",
            "0",
            "/out/v_%03d.mp4"
        ]
    );
}

#[test]
fn probe_argument_list() {
    let args = probe_duration_args("/in/v.mp4");
    assert_eq!(
        args,
        vec![
            "-v",
            "error",
            "-show_entries",
            "format=duration",
            "-of",
            "default=noprint_wrappers=1:nokey=1",
            "/in/v.mp4"
        ]
    );
}

#[test]
fn transcode_argument_list() {
    let args = hls_transcode_args("/in/v.mp4", "/cache/k", 8_000, 600, 4);
    assert_eq!(args.len(), 18);
    assert_eq!(args[1], "-ss");
    assert_eq!(args[2], "8.000");
    assert_eq!(args[4], "600");
    assert_eq!(args[6], "/in/v.mp4");
    assert_eq!(args[10], "4");
    assert_eq!(args[14], "expr:gte(t,n_forced*4)");
    assert_eq!(args[16], "/cache/k/seg_%03d.ts");
    assert_eq!(args[17], "/cache/k/manifest");
}

#[test]
fn seek_positions() {
    assert_eq!(seconds_millis(8_000), "8.000");
    assert_eq!(seconds_millis(61_234), "61.234");
    assert_eq!(seconds_millis(5), "0.005");
    assert_eq!(seconds_millis(0), "0.000");
}

#[test]
fn duration_parsing_accepts_decimals() {
    assert_eq!(parse_duration_ms("123.456"), Some(123_456));
    assert_eq!(parse_duration_ms("10"), Some(10_000));
    assert_eq!(parse_duration_ms(" 2.5\n"), Some(2_500));
    assert_eq!(parse_duration_ms("1.2345"), Some(1_234));
    assert_eq!(parse_duration_ms("0.04"), Some(40));
    assert_eq!(parse_duration_ms("\t7.125 \r\n"), Some(7_125));
}

#[test]
fn duration_parsing_rejects_garbage() {
    assert_eq!(parse_duration_ms("N/A"), None);
    assert_eq!(parse_duration_ms(""), None);
    assert_eq!(parse_duration_ms("   "), None);
    assert_eq!(parse_duration_ms("1."), None);
    assert_eq!(parse_duration_ms(".5"), None);
    assert_eq!(parse_duration_ms("12a"), None);
    assert_eq!(parse_duration_ms("1.5.6"), None);
    assert_eq!(parse_duration_ms("-3"), None);
    assert_eq!(parse_duration_ms("99999999999999999"), None);
}

#[test]
fn first_lines_are_trimmed() {
    assert_eq!(first_line_trimmed("/usr/bin/ffmpeg\n/other\n").as_deref(), Some("/usr/bin/ffmpeg"));
    assert_eq!(first_line_trimmed("  /usr/bin/ffmpeg \r\n").as_deref(), Some("/usr/bin/ffmpeg"));
    assert_eq!(first_line_trimmed("\nsecond"), None);
    assert_eq!(first_line_trimmed("   \n"), None);
    assert_eq!(trim_str("  a b \t"), "a b");
    assert_eq!(trim_str(""), "");
}
