//! The command-line tool's option grammar and the short channel names it prints.

use crate::renderer::BedChannel;
use crate::syncframe::types::same_text;
use vstd::prelude::*;
use vstd::string::{StrSliceExecFns, StringExecFns};

verus! {

/// Options of one run of the command-line tool. Paths are kept as given.
pub struct RunOptions {
    pub input: String,
    pub limit: Option<usize>,
    pub dump_frame_dir: Option<String>,
    pub dump_aux_dir: Option<String>,
    pub decode_core_check: bool,
    pub dump_core_f32: Option<String>,
    pub decode_objects_check: bool,
    pub dump_objects_f32: Option<String>,
    pub dump_joc_matrices_f32: Option<String>,
    pub render_714_check: bool,
    pub dump_render_714_wav: Option<String>,
    pub dump_render_positions_csv: Option<String>,
}

/// Options as text, while the arguments are read: the input path is not known yet.
pub struct OptionsModel {
    pub input: Option<Seq<char>>,
    pub limit: Option<usize>,
    pub dump_frame_dir: Option<Seq<char>>,
    pub dump_aux_dir: Option<Seq<char>>,
    pub decode_core_check: bool,
    pub dump_core_f32: Option<Seq<char>>,
    pub decode_objects_check: bool,
    pub dump_objects_f32: Option<Seq<char>>,
    pub dump_joc_matrices_f32: Option<Seq<char>>,
    pub render_714_check: bool,
    pub dump_render_714_wav: Option<Seq<char>>,
    pub dump_render_positions_csv: Option<Seq<char>>,
}

/// No option given.
pub open spec fn no_options() -> OptionsModel {
    OptionsModel {
        input: None,
        limit: None,
        dump_frame_dir: None,
        dump_aux_dir: None,
        decode_core_check: false,
        dump_core_f32: None,
        decode_objects_check: false,
        dump_objects_f32: None,
        dump_joc_matrices_f32: None,
        render_714_check: false,
        dump_render_714_wav: None,
        dump_render_positions_csv: None,
    }
}

/// Text of an optional path.
pub open spec fn path_view(p: Option<String>) -> Option<Seq<char>> {
    match p {
        Some(s) => Some(s@),
        None => None,
    }
}

impl RunOptions {
    /// The options as text.
    pub open spec fn model(&self) -> OptionsModel {
        OptionsModel {
            input: Some(self.input@),
            limit: self.limit,
            dump_frame_dir: path_view(self.dump_frame_dir),
            dump_aux_dir: path_view(self.dump_aux_dir),
            decode_core_check: self.decode_core_check,
            dump_core_f32: path_view(self.dump_core_f32),
            decode_objects_check: self.decode_objects_check,
            dump_objects_f32: path_view(self.dump_objects_f32),
            dump_joc_matrices_f32: path_view(self.dump_joc_matrices_f32),
            render_714_check: self.render_714_check,
            dump_render_714_wav: path_view(self.dump_render_714_wav),
            dump_render_positions_csv: path_view(self.dump_render_positions_csv),
        }
    }
}

impl RunOptions {
    /// Whether the run renders to 7.1.4: asked for, or needed by a render dump (the position
    /// dump is read only for raw streams).
    pub fn wants_render_714(&self, raw_stream: bool) -> (r: bool)
        ensures
            r == (self.render_714_check || self.dump_render_714_wav is Some || (raw_stream
                && self.dump_render_positions_csv is Some)),
    {
        self.render_714_check || self.dump_render_714_wav.is_some() || (raw_stream
            && self.dump_render_positions_csv.is_some())
    }

    /// Whether the run decodes object PCM: asked for, needed by an object or matrix dump, or by
    /// rendering.
    pub fn wants_object_pcm(&self, raw_stream: bool) -> (r: bool)
        ensures
            r == (self.decode_objects_check || self.dump_objects_f32 is Some
                || self.dump_joc_matrices_f32 is Some || self.render_714_check
                || self.dump_render_714_wav is Some || (raw_stream
                && self.dump_render_positions_csv is Some)),
    {
        self.decode_objects_check || self.dump_objects_f32.is_some()
            || self.dump_joc_matrices_f32.is_some() || self.wants_render_714(raw_stream)
    }

    /// Whether the run decodes core PCM: asked for, or needed by the core dump.
    pub fn wants_core_pcm(&self) -> (r: bool)
        ensures
            r == (self.decode_core_check || self.dump_core_f32 is Some),
    {
        self.decode_core_check || self.dump_core_f32.is_some()
    }

    /// Whether `frames` frames reach the limit, when there is one.
    pub fn limit_reached(&self, frames: usize) -> (r: bool)
        ensures
            r == (self.limit matches Some(limit) && frames >= limit),
    {
        match self.limit {
            Some(limit) => frames >= limit,
            None => false,
        }
    }

    /// Frames can be dumped only while splitting a raw stream: a directory input with a frame
    /// dump is refused with this message.
    pub fn check_input_kind(&self, input_is_dir: bool) -> (r: Result<(), &'static str>)
        ensures
            r is Err <==> (input_is_dir && self.dump_frame_dir is Some),
            r matches Err(m) ==> m@ == "--dump-frame-dir is only valid for raw .eac3 input"@,
    {
        if input_is_dir && self.dump_frame_dir.is_some() {
            Err("--dump-frame-dir is only valid for raw .eac3 input")
        } else {
            Ok(())
        }
    }
}

/// Value of a decimal digit character.
pub open spec fn digit_value(c: char) -> int {
    c as int - '0' as int
}

/// Value of a nonempty run of ASCII digits, `None` for anything else.
pub open spec fn spec_digits_value(s: Seq<char>) -> Option<nat>
    decreases s.len(),
{
    if s.len() == 0 {
        None
    } else if !('0' <= s.last() <= '9') {
        None
    } else if s.len() == 1 {
        Some(digit_value(s.last()) as nat)
    } else {
        match spec_digits_value(s.drop_last()) {
            Some(v) => Some((v * 10 + digit_value(s.last())) as nat),
            None => None,
        }
    }
}

/// What `usize::from_str` accepts: an optional `+`, then decimal digits, of a value that fits.
pub open spec fn spec_parse_usize(s: Seq<char>) -> Option<usize> {
    let digits = if s.len() > 0 && s[0] == '+' {
        s.drop_first()
    } else {
        s
    };
    match spec_digits_value(digits) {
        Some(v) => if v <= usize::MAX {
            Some(v as usize)
        } else {
            None
        },
        None => None,
    }
}

/// Reads an unsigned decimal number the way `usize::from_str` does.
pub fn parse_usize(text: &str) -> (r: Option<usize>)
    ensures
        r == spec_parse_usize(text@),
{
    let len = text.unicode_len();
    let mut start: usize = 0;
    if len > 0 && text.get_char(0) == '+' {
        start = 1;
    }
    let ghost digits = if text@.len() > 0 && text@[0] == '+' {
        text@.drop_first()
    } else {
        text@
    };
    assert(digits =~= text@.subrange(start as int, len as int));
    if start == len {
        return None;
    }
    let mut value: usize = 0;
    let mut i: usize = start;
    while i < len
        invariant
            len == text@.len(),
            start < len,
            start <= i <= len,
            digits == text@.subrange(start as int, len as int),
            digits == (if text@.len() > 0 && text@[0] == '+' {
                text@.drop_first()
            } else {
                text@
            }),
            i > start ==> spec_digits_value(text@.subrange(start as int, i as int)) == Some(
                value as nat,
            ),
            i == start ==> value == 0,
        decreases len - i,
    {
        let c = text.get_char(i);
        let ghost prefix = text@.subrange(start as int, i + 1);
        assert(prefix.drop_last() =~= text@.subrange(start as int, i as int));
        assert(prefix.last() == c);
        assert(digits.subrange(0, prefix.len() as int) =~= prefix);
        if !('0' <= c && c <= '9') {
            proof {
                lemma_digits_prefix_fails(digits, prefix);
            }
            return None;
        }
        let d = (c as u32 - '0' as u32) as usize;
        assert(digit_value(c) == d as int);
        assert(spec_digits_value(prefix) == Some((value * 10 + d) as nat));
        if value > (usize::MAX - d) / 10 {
            proof {
                lemma_digits_prefix_overflow(digits, prefix, (value * 10 + d) as nat);
            }
            return None;
        }
        value = value * 10 + d;
        i += 1;
    }
    assert(text@.subrange(start as int, len as int) =~= digits);
    Some(value)
}

/// A digit run whose prefix is not one has no value.
proof fn lemma_digits_prefix_fails(s: Seq<char>, prefix: Seq<char>)
    requires
        prefix.len() > 0,
        prefix.len() <= s.len(),
        prefix == s.subrange(0, prefix.len() as int),
        spec_digits_value(prefix) is None,
    ensures
        spec_digits_value(s) is None,
    decreases s.len(),
{
    if s.len() > prefix.len() {
        assert(s.drop_last().subrange(0, prefix.len() as int) =~= prefix);
        lemma_digits_prefix_fails(s.drop_last(), prefix);
    } else {
        assert(s =~= prefix);
    }
}

/// Extending a digit run never lowers its value.
proof fn lemma_digits_prefix_overflow(s: Seq<char>, prefix: Seq<char>, v: nat)
    requires
        prefix.len() > 0,
        prefix.len() <= s.len(),
        prefix == s.subrange(0, prefix.len() as int),
        spec_digits_value(prefix) == Some(v),
        v > usize::MAX,
    ensures
        spec_digits_value(s) matches Some(w) ==> w > usize::MAX,
    decreases s.len(),
{
    if s.len() > prefix.len() {
        assert(s.drop_last().subrange(0, prefix.len() as int) =~= prefix);
        lemma_digits_prefix_overflow(s.drop_last(), prefix, v);
    } else {
        assert(s =~= prefix);
    }
}

/// The message for a path flag given as the last argument; `None` for arguments that are no
/// path flag.
pub open spec fn spec_path_flag_message(arg: Seq<char>) -> Option<Seq<char>> {
    if arg == "--dump-frame-dir"@ || arg == "--frame-dir"@ {
        Some("--dump-frame-dir expects a directory"@)
    } else if arg == "--dump-aux-dir"@ {
        Some("--dump-aux-dir expects a directory"@)
    } else if arg == "--dump-core-f32"@ {
        Some("--dump-core-f32 expects a file path"@)
    } else if arg == "--dump-objects-f32"@ {
        Some("--dump-objects-f32 expects a directory"@)
    } else if arg == "--dump-joc-matrices-f32"@ {
        Some("--dump-joc-matrices-f32 expects a directory"@)
    } else if arg == "--dump-render-714-wav"@ {
        Some("--dump-render-714-wav expects a file path"@)
    } else if arg == "--dump-render-positions-csv"@ {
        Some("--dump-render-positions-csv expects a file path"@)
    } else {
        None
    }
}

/// The options after the path flag `arg` was given `value`.
pub open spec fn spec_set_path(acc: OptionsModel, arg: Seq<char>, value: Seq<char>) -> OptionsModel {
    if arg == "--dump-frame-dir"@ || arg == "--frame-dir"@ {
        OptionsModel { dump_frame_dir: Some(value), ..acc }
    } else if arg == "--dump-aux-dir"@ {
        OptionsModel { dump_aux_dir: Some(value), ..acc }
    } else if arg == "--dump-core-f32"@ {
        OptionsModel { dump_core_f32: Some(value), ..acc }
    } else if arg == "--dump-objects-f32"@ {
        OptionsModel { dump_objects_f32: Some(value), ..acc }
    } else if arg == "--dump-joc-matrices-f32"@ {
        OptionsModel { dump_joc_matrices_f32: Some(value), ..acc }
    } else if arg == "--dump-render-714-wav"@ {
        OptionsModel { dump_render_714_wav: Some(value), ..acc }
    } else {
        OptionsModel { dump_render_positions_csv: Some(value), ..acc }
    }
}

/// Reads the arguments from position `i` on into `acc`: a flag with a value takes the next
/// argument (a later flag overrides an earlier one), a switch sets its option, another
/// argument that starts with `-` is an unknown flag, and the first other argument is the input
/// path; a second one is an error.
pub open spec fn spec_parse_args(args: Seq<Seq<char>>, i: int, acc: OptionsModel) -> Result<
    OptionsModel,
    Seq<char>,
>
    decreases args.len() - i,
{
    if i < 0 || i >= args.len() {
        Ok(acc)
    } else {
        let arg = args[i];
        if arg == "--limit"@ {
            if i + 1 >= args.len() {
                Err("--limit expects a number"@)
            } else {
                match spec_parse_usize(args[i + 1]) {
                    Some(n) => spec_parse_args(args, i + 2, OptionsModel { limit: Some(n), ..acc }),
                    None => Err("invalid --limit value: "@ + args[i + 1]),
                }
            }
        } else if spec_path_flag_message(arg) is Some {
            if i + 1 >= args.len() {
                Err(spec_path_flag_message(arg)->0)
            } else {
                spec_parse_args(args, i + 2, spec_set_path(acc, arg, args[i + 1]))
            }
        } else if arg == "--decode-core-check"@ {
            spec_parse_args(args, i + 1, OptionsModel { decode_core_check: true, ..acc })
        } else if arg == "--decode-objects-check"@ {
            spec_parse_args(args, i + 1, OptionsModel { decode_objects_check: true, ..acc })
        } else if arg == "--render-714-check"@ {
            spec_parse_args(args, i + 1, OptionsModel { render_714_check: true, ..acc })
        } else if arg.len() > 0 && arg[0] == '-' {
            Err("unknown flag: "@ + arg)
        } else if acc.input is None {
            spec_parse_args(args, i + 1, OptionsModel { input: Some(arg), ..acc })
        } else {
            Err("only one input path is supported"@)
        }
    }
}

/// The options of a run given `args` (the program name left out), or the message that
/// rejects them.
pub open spec fn spec_run_options(args: Seq<Seq<char>>) -> Result<OptionsModel, Seq<char>> {
    match spec_parse_args(args, 0, no_options()) {
        Err(e) => Err(e),
        Ok(m) => if m.input is Some {
            Ok(m)
        } else {
            Err("missing input.eac3 or frame-dir"@)
        },
    }
}

/// The arguments as text.
pub open spec fn args_view(args: Seq<String>) -> Seq<Seq<char>> {
    args.map_values(|a: String| a@)
}

/// Options read so far.
struct ArgState {
    input: Option<String>,
    limit: Option<usize>,
    dump_frame_dir: Option<String>,
    dump_aux_dir: Option<String>,
    decode_core_check: bool,
    dump_core_f32: Option<String>,
    decode_objects_check: bool,
    dump_objects_f32: Option<String>,
    dump_joc_matrices_f32: Option<String>,
    render_714_check: bool,
    dump_render_714_wav: Option<String>,
    dump_render_positions_csv: Option<String>,
}

impl ArgState {
    spec fn model(&self) -> OptionsModel {
        OptionsModel {
            input: path_view(self.input),
            limit: self.limit,
            dump_frame_dir: path_view(self.dump_frame_dir),
            dump_aux_dir: path_view(self.dump_aux_dir),
            decode_core_check: self.decode_core_check,
            dump_core_f32: path_view(self.dump_core_f32),
            decode_objects_check: self.decode_objects_check,
            dump_objects_f32: path_view(self.dump_objects_f32),
            dump_joc_matrices_f32: path_view(self.dump_joc_matrices_f32),
            render_714_check: self.render_714_check,
            dump_render_714_wav: path_view(self.dump_render_714_wav),
            dump_render_positions_csv: path_view(self.dump_render_positions_csv),
        }
    }

    /// Stores `value` for the path flag `arg`.
    fn set_path(&mut self, arg: &str, value: String)
        requires
            spec_path_flag_message(arg@) is Some,
        ensures
            final(self).model() == spec_set_path(old(self).model(), arg@, value@),
    {
        if same_text(arg, "--dump-frame-dir") || same_text(arg, "--frame-dir") {
            self.dump_frame_dir = Some(value);
        } else if same_text(arg, "--dump-aux-dir") {
            self.dump_aux_dir = Some(value);
        } else if same_text(arg, "--dump-core-f32") {
            self.dump_core_f32 = Some(value);
        } else if same_text(arg, "--dump-objects-f32") {
            self.dump_objects_f32 = Some(value);
        } else if same_text(arg, "--dump-joc-matrices-f32") {
            self.dump_joc_matrices_f32 = Some(value);
        } else if same_text(arg, "--dump-render-714-wav") {
            self.dump_render_714_wav = Some(value);
        } else {
            self.dump_render_positions_csv = Some(value);
        }
    }
}

/// The message for a path flag given as the last argument, `None` for other arguments.
fn path_flag_message(arg: &str) -> (r: Option<&'static str>)
    ensures
        match spec_path_flag_message(arg@) {
            Some(m) => r matches Some(t) && t@ == m,
            None => r is None,
        },
{
    if same_text(arg, "--dump-frame-dir") || same_text(arg, "--frame-dir") {
        Some("--dump-frame-dir expects a directory")
    } else if same_text(arg, "--dump-aux-dir") {
        Some("--dump-aux-dir expects a directory")
    } else if same_text(arg, "--dump-core-f32") {
        Some("--dump-core-f32 expects a file path")
    } else if same_text(arg, "--dump-objects-f32") {
        Some("--dump-objects-f32 expects a directory")
    } else if same_text(arg, "--dump-joc-matrices-f32") {
        Some("--dump-joc-matrices-f32 expects a directory")
    } else if same_text(arg, "--dump-render-714-wav") {
        Some("--dump-render-714-wav expects a file path")
    } else if same_text(arg, "--dump-render-positions-csv") {
        Some("--dump-render-positions-csv expects a file path")
    } else {
        None
    }
}

/// A text made of `prefix` and `rest`.
fn joined(prefix: &str, rest: &str) -> (s: String)
    ensures
        s@ == prefix@ + rest@,
{
    let mut s = String::from_str(prefix);
    s.append(rest);
    s
}

/// Reads the options of a run from the command-line arguments, the program name left out.
pub fn parse_run_options(args: &Vec<String>) -> (r: Result<RunOptions, String>)
    ensures
        match spec_run_options(args_view(args@)) {
            Ok(m) => r matches Ok(o) && o.model() == m,
            Err(e) => r matches Err(s) && s@ == e,
        },
{
    let ghost view = args_view(args@);
    let mut state = ArgState {
        input: None,
        limit: None,
        dump_frame_dir: None,
        dump_aux_dir: None,
        decode_core_check: false,
        dump_core_f32: None,
        decode_objects_check: false,
        dump_objects_f32: None,
        dump_joc_matrices_f32: None,
        render_714_check: false,
        dump_render_714_wav: None,
        dump_render_positions_csv: None,
    };
    let mut i: usize = 0;
    while i < args.len()
        invariant
            view == args_view(args@),
            view.len() == args@.len(),
            i <= args@.len(),
            spec_parse_args(view, 0, no_options()) == spec_parse_args(view, i as int, state.model()),
        decreases args@.len() - i,
    {
        let arg = args[i].as_str();
        assert(arg@ == view[i as int]);
        if same_text(arg, "--limit") {
            if i + 1 >= args.len() {
                return Err(String::from_str("--limit expects a number"));
            }
            let value = args[i + 1].as_str();
            assert(value@ == view[i + 1]);
            match parse_usize(value) {
                Some(n) => {
                    state.limit = Some(n);
                    i += 2;
                },
                None => {
                    return Err(joined("invalid --limit value: ", value));
                },
            }
        } else {
            match path_flag_message(arg) {
                Some(message) => {
                    if i + 1 >= args.len() {
                        return Err(String::from_str(message));
                    }
                    let value = args[i + 1].clone();
                    assert(value@ == view[i + 1]);
                    state.set_path(arg, value);
                    i += 2;
                },
                None => {
                    if same_text(arg, "--decode-core-check") {
                        state.decode_core_check = true;
                    } else if same_text(arg, "--decode-objects-check") {
                        state.decode_objects_check = true;
                    } else if same_text(arg, "--render-714-check") {
                        state.render_714_check = true;
                    } else if arg.unicode_len() > 0 && arg.get_char(0) == '-' {
                        return Err(joined("unknown flag: ", arg));
                    } else if state.input.is_none() {
                        state.input = Some(args[i].clone());
                    } else {
                        return Err(String::from_str("only one input path is supported"));
                    }
                    i += 1;
                },
            }
        }
    }
    match state.input {
        Some(input) => Ok(
            RunOptions {
                input,
                limit: state.limit,
                dump_frame_dir: state.dump_frame_dir,
                dump_aux_dir: state.dump_aux_dir,
                decode_core_check: state.decode_core_check,
                dump_core_f32: state.dump_core_f32,
                decode_objects_check: state.decode_objects_check,
                dump_objects_f32: state.dump_objects_f32,
                dump_joc_matrices_f32: state.dump_joc_matrices_f32,
                render_714_check: state.render_714_check,
                dump_render_714_wav: state.dump_render_714_wav,
                dump_render_positions_csv: state.dump_render_positions_csv,
            },
        ),
        None => Err(String::from_str("missing input.eac3 or frame-dir")),
    }
}

/// Short name of a bed channel as the tool prints it.
pub open spec fn spec_bed_channel_name(channel: BedChannel) -> Seq<char> {
    match channel {
        BedChannel::FrontLeft => "FL"@,
        BedChannel::FrontRight => "FR"@,
        BedChannel::Center => "FC"@,
        BedChannel::LowFrequencyEffects => "LFE"@,
        BedChannel::SurroundLeft => "SL"@,
        BedChannel::SurroundRight => "SR"@,
        BedChannel::RearLeft => "RL"@,
        BedChannel::RearRight => "RR"@,
        BedChannel::TopFrontLeft => "TFL"@,
        BedChannel::TopFrontRight => "TFR"@,
        BedChannel::TopSurroundLeft => "TSL"@,
        BedChannel::TopSurroundRight => "TSR"@,
        BedChannel::TopRearLeft => "TRL"@,
        BedChannel::TopRearRight => "TRR"@,
        BedChannel::WideLeft => "WL"@,
        BedChannel::WideRight => "WR"@,
        BedChannel::LowFrequencyEffects2 => "LFE2"@,
    }
}

/// Short name of a bed channel as the tool prints it.
pub fn bed_channel_name(channel: BedChannel) -> (r: &'static str)
    ensures
        r@ == spec_bed_channel_name(channel),
{
    match channel {
        BedChannel::FrontLeft => "FL",
        BedChannel::FrontRight => "FR",
        BedChannel::Center => "FC",
        BedChannel::LowFrequencyEffects => "LFE",
        BedChannel::SurroundLeft => "SL",
        BedChannel::SurroundRight => "SR",
        BedChannel::RearLeft => "RL",
        BedChannel::RearRight => "RR",
        BedChannel::TopFrontLeft => "TFL",
        BedChannel::TopFrontRight => "TFR",
        BedChannel::TopSurroundLeft => "TSL",
        BedChannel::TopSurroundRight => "TSR",
        BedChannel::TopRearLeft => "TRL",
        BedChannel::TopRearRight => "TRR",
        BedChannel::WideLeft => "WL",
        BedChannel::WideRight => "WR",
        BedChannel::LowFrequencyEffects2 => "LFE2",
    }
}

/// Short names of `channels`, separated by commas.
pub open spec fn spec_channel_names(channels: Seq<BedChannel>) -> Seq<char>
    decreases channels.len(),
{
    if channels.len() == 0 {
        Seq::empty()
    } else if channels.len() == 1 {
        spec_bed_channel_name(channels[0])
    } else {
        spec_channel_names(channels.drop_last()) + ","@ + spec_bed_channel_name(channels.last())
    }
}

/// Short names of `channels`, separated by commas.
pub fn format_channel_names(channels: &[BedChannel]) -> (s: String)
    ensures
        s@ == spec_channel_names(channels@),
{
    let mut out = String::new();
    let mut i: usize = 0;
    while i < channels.len()
        invariant
            i <= channels@.len(),
            out@ == spec_channel_names(channels@.take(i as int)),
        decreases channels@.len() - i,
    {
        let ghost before = out@;
        assert(channels@.take(i + 1).drop_last() =~= channels@.take(i as int));
        if i != 0 {
            out.append(",");
        }
        out.append(bed_channel_name(channels[i]));
        proof {
            if i == 0 {
                assert(channels@.take(1)[0] == channels@[0]);
                assert(before =~= Seq::<char>::empty());
            }
        }
        assert(out@ =~= spec_channel_names(channels@.take(i + 1)));
        i += 1;
    }
    assert(channels@.take(i as int) =~= channels@);
    out
}

} // verus!
