use starmine_ad::cli::{bed_channel_name, format_channel_names, parse_run_options, parse_usize};
use starmine_ad::renderer::BedChannel;

fn args(list: &[&str]) -> Vec<String> {
    list.iter().map(|arg| arg.to_string()).collect()
}

#[test]
fn run_options_collect_every_flag() {
    let options = parse_run_options(&args(&[
        "--limit",
        "5",
        "stream.eac3",
        "--frame-dir",
        "frames",
        "--dump-aux-dir",
        "aux",
        "--decode-core-check",
        "--dump-core-f32",
        "core.f32",
        "--decode-objects-check",
        "--dump-objects-f32",
        "objects",
        "--dump-joc-matrices-f32",
        "joc",
        "--render-714-check",
        "--dump-render-714-wav",
        "out.wav",
        "--dump-render-positions-csv",
        "positions.csv",
    ]))
    .expect("options should parse");
    assert_eq!(options.input, "stream.eac3");
    assert_eq!(options.limit, Some(5));
    assert_eq!(options.dump_frame_dir.as_deref(), Some("frames"));
    assert_eq!(options.dump_aux_dir.as_deref(), Some("aux"));
    assert!(options.decode_core_check);
    assert_eq!(options.dump_core_f32.as_deref(), Some("core.f32"));
    assert!(options.decode_objects_check);
    assert_eq!(options.dump_objects_f32.as_deref(), Some("objects"));
    assert_eq!(options.dump_joc_matrices_f32.as_deref(), Some("joc"));
    assert!(options.render_714_check);
    assert_eq!(options.dump_render_714_wav.as_deref(), Some("out.wav"));
    assert_eq!(options.dump_render_positions_csv.as_deref(), Some("positions.csv"));
}

#[test]
fn run_options_default_to_nothing() {
    let options = parse_run_options(&args(&["frames/"])).expect("input alone parses");
    assert_eq!(options.input, "frames/");
    assert_eq!(options.limit, None);
    assert_eq!(options.dump_frame_dir, None);
    assert!(!options.decode_core_check);
    assert!(!options.decode_objects_check);
    assert!(!options.render_714_check);
}

#[test]
fn later_flag_overrides_earlier_one() {
    let options = parse_run_options(&args(&["in", "--limit", "3", "--limit", "+9", "--dump-frame-dir", "a", "--frame-dir", "b"]))
        .expect("options should parse");
    assert_eq!(options.limit, Some(9));
    assert_eq!(options.dump_frame_dir.as_deref(), Some("b"));
}

#[test]
fn run_options_report_each_error() {
    let err = |list: &[&str]| parse_run_options(&args(list)).err().expect("should fail");
    assert_eq!(err(&["in", "--limit"]), "--limit expects a number");
    assert_eq!(err(&["in", "--limit", "x1"]), "invalid --limit value: x1");
    assert_eq!(err(&["in", "--limit", "-1"]), "invalid --limit value: -1");
    assert_eq!(err(&["in", "--dump-core-f32"]), "--dump-core-f32 expects a file path");
    assert_eq!(err(&["in", "--frame-dir"]), "--dump-frame-dir expects a directory");
    assert_eq!(err(&["in", "--verbose"]), "unknown flag: --verbose");
    assert_eq!(err(&["a", "b"]), "only one input path is supported");
    assert_eq!(err(&[]), "missing input.eac3 or frame-dir");
    assert_eq!(err(&["--render-714-check"]), "missing input.eac3 or frame-dir");
}

#[test]
fn usize_parsing_follows_from_str() {
    assert_eq!(parse_usize("0"), Some(0));
    assert_eq!(parse_usize("007"), Some(7));
    assert_eq!(parse_usize("+12"), Some(12));
    assert_eq!(parse_usize(""), None);
    assert_eq!(parse_usize("+"), None);
    assert_eq!(parse_usize("1a"), None);
    assert_eq!(parse_usize(" 1"), None);
    assert_eq!(parse_usize(&usize::MAX.to_string()), Some(usize::MAX));
    assert_eq!(parse_usize(&format!("{}0", usize::MAX)), None);
    for text in ["42", "+0", "-3", "99999999999999999999999"] {
        assert_eq!(parse_usize(text), text.parse::<usize>().ok());
    }
}

#[test]
fn channel_names_are_short_and_comma_separated() {
    assert_eq!(bed_channel_name(BedChannel::Center), "FC");
    assert_eq!(bed_channel_name(BedChannel::LowFrequencyEffects2), "LFE2");
    assert_eq!(
        format_channel_names(&[BedChannel::FrontLeft, BedChannel::TopRearRight, BedChannel::WideLeft]),
        "FL,TRR,WL"
    );
    assert_eq!(format_channel_names(&[]), "");
}

#[test]
fn pipeline_choice_follows_options() {
    let options = parse_run_options(&args(&["in", "--dump-render-positions-csv", "p.csv"])).unwrap();
    assert!(options.wants_render_714(true));
    assert!(!options.wants_render_714(false));
    assert!(options.wants_object_pcm(true));
    assert!(!options.wants_object_pcm(false));
    assert!(!options.wants_core_pcm());

    let options = parse_run_options(&args(&["in", "--dump-core-f32", "c.f32", "--limit", "2"])).unwrap();
    assert!(options.wants_core_pcm());
    assert!(!options.wants_object_pcm(true));
    assert!(!options.limit_reached(1));
    assert!(options.limit_reached(2));

    let options = parse_run_options(&args(&["in", "--dump-joc-matrices-f32", "m"])).unwrap();
    assert!(options.wants_object_pcm(false));
    assert!(!options.wants_render_714(true));
    assert!(!options.limit_reached(usize::MAX));
}

#[test]
fn frame_dump_needs_a_raw_stream() {
    let options = parse_run_options(&args(&["frames", "--dump-frame-dir", "out"])).unwrap();
    assert_eq!(
        options.check_input_kind(true),
        Err("--dump-frame-dir is only valid for raw .eac3 input")
    );
    assert_eq!(options.check_input_kind(false), Ok(()));
    let options = parse_run_options(&args(&["frames"])).unwrap();
    assert_eq!(options.check_input_kind(true), Ok(()));
}
