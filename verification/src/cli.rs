use vstd::prelude::*;

use crate::backend::Backend;
use crate::config::Quality;
use crate::error::Error;
use crate::parse::{parse_backend, parse_quality, spec_cli_backend, spec_cli_quality, str_equals};
use crate::text::{push_decimal, spec_decimal};

verus! {

/// `c` is an ASCII decimal digit.
pub open spec fn is_digit(c: char) -> bool {
    '0' <= c && c <= '9'
}

/// The message for text that holds no number at all.
pub open spec fn empty_number_message() -> Seq<char> {
    "cannot parse integer from empty string"@
}

/// The message for text with a character that is not a digit.
pub open spec fn invalid_digit_message() -> Seq<char> {
    "invalid digit found in string"@
}

/// The message for a number above `u32::MAX`.
pub open spec fn overflow_message() -> Seq<char> {
    "number too large to fit in target type"@
}

/// Reads the digits of `s` from position `i` on, with `acc` the value of
/// those before: a character that is not a digit fails with the
/// invalid-digit message, a value that passes `u32::MAX` with the overflow
/// message, whichever comes first; the first failing character decides.
pub open spec fn scan_u32(s: Seq<char>, i: int, acc: nat) -> Result<u32, Seq<char>>
    decreases s.len() - i,
{
    if i < 0 || i >= s.len() {
        Ok(acc as u32)
    } else if !is_digit(s[i]) {
        Err(invalid_digit_message())
    } else if acc * 10 + (s[i] as int - 48) > u32::MAX {
        Err(overflow_message())
    } else {
        scan_u32(s, i + 1, (acc * 10 + (s[i] as int - 48)) as nat)
    }
}

/// Decimal text to `u32`, as `str::parse::<u32>` reads it: an optional `+`
/// followed by one or more ASCII digits; the empty text, a sign alone, any
/// other character and a value above `u32::MAX` are refused with the
/// message that says which.
pub open spec fn spec_parse_u32(s: Seq<char>) -> Result<u32, Seq<char>> {
    if s.len() == 0 {
        Err(empty_number_message())
    } else if s.len() == 1 && (s[0] == '+' || s[0] == '-') {
        Err(invalid_digit_message())
    } else if s[0] == '+' {
        scan_u32(s, 1, 0)
    } else {
        scan_u32(s, 0, 0)
    }
}

/// Parses decimal text into a `u32` (see `spec_parse_u32`).
pub fn parse_u32(value: &str) -> (r: Result<u32, String>)
    ensures
        match spec_parse_u32(value@) {
            Ok(v) => r == Ok::<u32, String>(v),
            Err(m) => r matches Err(e) && e@ == m,
        },
{
    let n = value.unicode_len();
    if n == 0 {
        return Err(String::from_str("cannot parse integer from empty string"));
    }
    let first = value.get_char(0);
    if n == 1 && (first == '+' || first == '-') {
        return Err(String::from_str("invalid digit found in string"));
    }
    let mut i: usize = if first == '+' {
        1
    } else {
        0
    };
    let mut acc: u32 = 0;
    while i < n
        invariant
            n == value@.len(),
            0 <= i <= n,
            spec_parse_u32(value@) == scan_u32(value@, i as int, acc as nat),
        decreases n - i,
    {
        let c = value.get_char(i);
        if !('0' <= c && c <= '9') {
            return Err(String::from_str("invalid digit found in string"));
        }
        let next: u64 = acc as u64 * 10 + (c as u32 - 48) as u64;
        if next > 0xffff_ffff {
            return Err(String::from_str("number too large to fit in target type"));
        }
        acc = next as u32;
        i = i + 1;
    }
    Ok(acc)
}

/// What the command line asks the program to resample.
pub struct CliArgs {
    pub input: String,
    pub output: String,
    pub rate: u32,
    pub quality: Quality,
    pub backend: Backend,
}

/// A parsed command line: resample, or show the help text.
pub enum CliRequest {
    Run(CliArgs),
    Help,
}

/// The options seen so far while reading a command line.
pub ghost struct CliState {
    pub input: Option<Seq<char>>,
    pub output: Option<Seq<char>>,
    pub rate: Option<u32>,
    pub quality: Quality,
    pub backend: Backend,
}

/// What reading a command line comes to: a run with these options, the
/// help text, or a failure with this message.
pub ghost enum CliOutcome {
    Run { input: Seq<char>, output: Seq<char>, rate: u32, quality: Quality, backend: Backend },
    Help,
    Fail(Seq<char>),
}

/// Nothing seen yet: no paths, no rate, balanced quality, automatic backend.
pub open spec fn cli_start() -> CliState {
    CliState {
        input: None,
        output: None,
        rate: None,
        quality: Quality::Balanced,
        backend: Backend::Auto,
    }
}

/// The end of the command line: `--in`, `--out` and `--rate` are required,
/// checked in that order.
pub open spec fn cli_finish(st: CliState) -> CliOutcome {
    match (st.input, st.output, st.rate) {
        (None, _, _) => CliOutcome::Fail("--in is required"@),
        (Some(_), None, _) => CliOutcome::Fail("--out is required"@),
        (Some(_), Some(_), None) => CliOutcome::Fail("--rate is required"@),
        (Some(input), Some(output), Some(rate)) => CliOutcome::Run {
            input,
            output,
            rate,
            quality: st.quality,
            backend: st.backend,
        },
    }
}

/// Reads the command line `args` from argument `i` on, with the options
/// `st` seen before it. An option takes the next argument as its value; a
/// path option at the very end clears that path; `--help` stops at once;
/// anything else is an unknown argument.
pub open spec fn cli_from(args: Seq<Seq<char>>, i: int, st: CliState) -> CliOutcome
    decreases args.len() + 1 - i,
{
    if i < 0 || i >= args.len() {
        cli_finish(st)
    } else {
        let a = args[i];
        let value = if i + 1 < args.len() {
            Some(args[i + 1])
        } else {
            None
        };
        if a == "--in"@ || a == "-i"@ {
            cli_from(args, i + 2, CliState { input: value, ..st })
        } else if a == "--out"@ || a == "-o"@ {
            cli_from(args, i + 2, CliState { output: value, ..st })
        } else if a == "--rate"@ || a == "-r"@ {
            match value {
                None => CliOutcome::Fail("--rate requires a value"@),
                Some(v) => match spec_parse_u32(v) {
                    Ok(rate) => cli_from(args, i + 2, CliState { rate: Some(rate), ..st }),
                    Err(message) => CliOutcome::Fail(message),
                },
            }
        } else if a == "--quality"@ || a == "-q"@ {
            match value {
                None => CliOutcome::Fail("--quality requires a value"@),
                Some(v) => match spec_cli_quality(v) {
                    Some(quality) => cli_from(args, i + 2, CliState { quality, ..st }),
                    None => CliOutcome::Fail("unknown quality: "@ + v),
                },
            }
        } else if a == "--backend"@ || a == "-b"@ {
            match value {
                None => CliOutcome::Fail("--backend requires a value"@),
                Some(v) => match spec_cli_backend(v) {
                    Some(backend) => cli_from(args, i + 2, CliState { backend, ..st }),
                    None => CliOutcome::Fail("unknown backend: "@ + v),
                },
            }
        } else if a == "--help"@ || a == "-h"@ {
            CliOutcome::Help
        } else {
            CliOutcome::Fail("unknown argument: "@ + a)
        }
    }
}

/// Reading from argument `j` on never looks at the arguments before `j`.
pub proof fn lemma_cli_reads_forward(args: Seq<Seq<char>>, i: int, x: Seq<char>, j: int, st: CliState)
    requires
        0 <= i < j,
        i < args.len(),
    ensures
        cli_from(args.update(i, x), j, st) == cli_from(args, j, st),
    decreases args.len() + 1 - j,
{
    let u = args.update(i, x);
    if j < args.len() {
        assert(u[j] == args[j]);
        if j + 1 < args.len() {
            assert(u[j + 1] == args[j + 1]);
        }
        let value = if j + 1 < args.len() {
            Some(args[j + 1])
        } else {
            None
        };
        lemma_cli_reads_forward(args, i, x, j + 2, CliState { input: value, ..st });
        lemma_cli_reads_forward(args, i, x, j + 2, CliState { output: value, ..st });
        if j + 1 < args.len() {
            match spec_parse_u32(args[j + 1]) {
                Ok(rate) => lemma_cli_reads_forward(
                    args,
                    i,
                    x,
                    j + 2,
                    CliState { rate: Some(rate), ..st },
                ),
                Err(_) => {},
            }
            match spec_cli_quality(args[j + 1]) {
                Some(quality) => lemma_cli_reads_forward(args, i, x, j + 2, CliState { quality, ..st }),
                None => {},
            }
            match spec_cli_backend(args[j + 1]) {
                Some(backend) => lemma_cli_reads_forward(args, i, x, j + 2, CliState { backend, ..st }),
                None => {},
            }
        }
    }
}

/// The long and the short spelling of an option mean the same: where
/// argument `i` is read as an option, writing `-i`, `-o`, `-r`, `-q`, `-b`
/// or `-h` in place of `--in`, `--out`, `--rate`, `--quality`, `--backend`
/// or `--help` (or the other way round) does not change what the command
/// line comes to.
pub proof fn lemma_cli_option_spellings(args: Seq<Seq<char>>, i: int, st: CliState)
    requires
        0 <= i < args.len(),
    ensures
        args[i] == "-i"@ || args[i] == "--in"@ ==> cli_from(args.update(i, "-i"@), i, st)
            == cli_from(args.update(i, "--in"@), i, st),
        args[i] == "-o"@ || args[i] == "--out"@ ==> cli_from(args.update(i, "-o"@), i, st)
            == cli_from(args.update(i, "--out"@), i, st),
        args[i] == "-r"@ || args[i] == "--rate"@ ==> cli_from(args.update(i, "-r"@), i, st)
            == cli_from(args.update(i, "--rate"@), i, st),
        args[i] == "-q"@ || args[i] == "--quality"@ ==> cli_from(args.update(i, "-q"@), i, st)
            == cli_from(args.update(i, "--quality"@), i, st),
        args[i] == "-b"@ || args[i] == "--backend"@ ==> cli_from(args.update(i, "-b"@), i, st)
            == cli_from(args.update(i, "--backend"@), i, st),
        args[i] == "-h"@ || args[i] == "--help"@ ==> cli_from(args.update(i, "-h"@), i, st)
            == cli_from(args.update(i, "--help"@), i, st),
{
    reveal_strlit("-i");
    reveal_strlit("--in");
    reveal_strlit("-o");
    reveal_strlit("--out");
    reveal_strlit("-r");
    reveal_strlit("--rate");
    reveal_strlit("-q");
    reveal_strlit("--quality");
    reveal_strlit("-b");
    reveal_strlit("--backend");
    reveal_strlit("-h");
    reveal_strlit("--help");
    assert("--in"@.len() == 4);
    assert("-i"@.len() == 2);
    assert("--out"@.len() == 5);
    assert("-o"@.len() == 2);
    assert("--rate"@.len() == 6);
    assert("-r"@.len() == 2);
    assert("--quality"@.len() == 9);
    assert("-q"@.len() == 2);
    assert("--backend"@.len() == 9);
    assert("-b"@.len() == 2);
    assert("--help"@.len() == 6);
    assert("-h"@.len() == 2);
    assert("--in"@ != "-i"@);
    assert("--in"@ != "--out"@);
    assert("--in"@ != "-o"@);
    assert("--in"@ != "--rate"@);
    assert("--in"@ != "-r"@);
    assert("--in"@ != "--quality"@);
    assert("--in"@ != "-q"@);
    assert("--in"@ != "--backend"@);
    assert("--in"@ != "-b"@);
    assert("--in"@ != "--help"@);
    assert("--in"@ != "-h"@);
    assert("-i"@ != "--out"@);
    assert("-i"@[1] != "-o"@[1]);
    assert("-i"@ != "-o"@);
    assert("-i"@ != "--rate"@);
    assert("-i"@[1] != "-r"@[1]);
    assert("-i"@ != "-r"@);
    assert("-i"@ != "--quality"@);
    assert("-i"@[1] != "-q"@[1]);
    assert("-i"@ != "-q"@);
    assert("-i"@ != "--backend"@);
    assert("-i"@[1] != "-b"@[1]);
    assert("-i"@ != "-b"@);
    assert("-i"@ != "--help"@);
    assert("-i"@[1] != "-h"@[1]);
    assert("-i"@ != "-h"@);
    assert("--out"@ != "-o"@);
    assert("--out"@ != "--rate"@);
    assert("--out"@ != "-r"@);
    assert("--out"@ != "--quality"@);
    assert("--out"@ != "-q"@);
    assert("--out"@ != "--backend"@);
    assert("--out"@ != "-b"@);
    assert("--out"@ != "--help"@);
    assert("--out"@ != "-h"@);
    assert("-o"@ != "--rate"@);
    assert("-o"@[1] != "-r"@[1]);
    assert("-o"@ != "-r"@);
    assert("-o"@ != "--quality"@);
    assert("-o"@[1] != "-q"@[1]);
    assert("-o"@ != "-q"@);
    assert("-o"@ != "--backend"@);
    assert("-o"@[1] != "-b"@[1]);
    assert("-o"@ != "-b"@);
    assert("-o"@ != "--help"@);
    assert("-o"@[1] != "-h"@[1]);
    assert("-o"@ != "-h"@);
    assert("--rate"@ != "-r"@);
    assert("--rate"@ != "--quality"@);
    assert("--rate"@ != "-q"@);
    assert("--rate"@ != "--backend"@);
    assert("--rate"@ != "-b"@);
    assert("--rate"@[2] != "--help"@[2]);
    assert("--rate"@ != "--help"@);
    assert("--rate"@ != "-h"@);
    assert("-r"@ != "--quality"@);
    assert("-r"@[1] != "-q"@[1]);
    assert("-r"@ != "-q"@);
    assert("-r"@ != "--backend"@);
    assert("-r"@[1] != "-b"@[1]);
    assert("-r"@ != "-b"@);
    assert("-r"@ != "--help"@);
    assert("-r"@[1] != "-h"@[1]);
    assert("-r"@ != "-h"@);
    assert("--quality"@ != "-q"@);
    assert("--quality"@[2] != "--backend"@[2]);
    assert("--quality"@ != "--backend"@);
    assert("--quality"@ != "-b"@);
    assert("--quality"@ != "--help"@);
    assert("--quality"@ != "-h"@);
    assert("-q"@ != "--backend"@);
    assert("-q"@[1] != "-b"@[1]);
    assert("-q"@ != "-b"@);
    assert("-q"@ != "--help"@);
    assert("-q"@[1] != "-h"@[1]);
    assert("-q"@ != "-h"@);
    assert("--backend"@ != "-b"@);
    assert("--backend"@ != "--help"@);
    assert("--backend"@ != "-h"@);
    assert("-b"@ != "--help"@);
    assert("-b"@[1] != "-h"@[1]);
    assert("-b"@ != "-h"@);
    assert("--help"@ != "-h"@);
    let short_long: Seq<(Seq<char>, Seq<char>)> = seq![
        ("-i"@, "--in"@),
        ("-o"@, "--out"@),
        ("-r"@, "--rate"@),
        ("-q"@, "--quality"@),
        ("-b"@, "--backend"@),
        ("-h"@, "--help"@),
    ];
    assert forall|k: int| 0 <= k < 6 implies {
        let (sh, lo) = #[trigger] short_long[k];
        cli_from(args.update(i, sh), i, st) == cli_from(args.update(i, lo), i, st)
    } by {
        let (sh, lo) = short_long[k];
        let u1 = args.update(i, sh);
        let u2 = args.update(i, lo);
        assert(u1[i] == sh && u2[i] == lo);
        let value = if i + 1 < args.len() {
            Some(args[i + 1])
        } else {
            None
        };
        if i + 1 < args.len() {
            assert(u1[i + 1] == args[i + 1] && u2[i + 1] == args[i + 1]);
        }
        let st_in = CliState { input: value, ..st };
        let st_out = CliState { output: value, ..st };
        lemma_cli_reads_forward(args, i, sh, i + 2, st_in);
        lemma_cli_reads_forward(args, i, lo, i + 2, st_in);
        lemma_cli_reads_forward(args, i, sh, i + 2, st_out);
        lemma_cli_reads_forward(args, i, lo, i + 2, st_out);
        if i + 1 < args.len() {
            match spec_parse_u32(args[i + 1]) {
                Ok(rate) => {
                    lemma_cli_reads_forward(args, i, sh, i + 2, CliState { rate: Some(rate), ..st });
                    lemma_cli_reads_forward(args, i, lo, i + 2, CliState { rate: Some(rate), ..st });
                },
                Err(_) => {},
            }
            match spec_cli_quality(args[i + 1]) {
                Some(quality) => {
                    lemma_cli_reads_forward(args, i, sh, i + 2, CliState { quality, ..st });
                    lemma_cli_reads_forward(args, i, lo, i + 2, CliState { quality, ..st });
                },
                None => {},
            }
            match spec_cli_backend(args[i + 1]) {
                Some(backend) => {
                    lemma_cli_reads_forward(args, i, sh, i + 2, CliState { backend, ..st });
                    lemma_cli_reads_forward(args, i, lo, i + 2, CliState { backend, ..st });
                },
                None => {},
            }
        }
    }
    assert(short_long[0] == ("-i"@, "--in"@));
    assert(short_long[1] == ("-o"@, "--out"@));
    assert(short_long[2] == ("-r"@, "--rate"@));
    assert(short_long[3] == ("-q"@, "--quality"@));
    assert(short_long[4] == ("-b"@, "--backend"@));
    assert(short_long[5] == ("-h"@, "--help"@));
}

/// The text of each argument.
pub open spec fn arg_views(args: Seq<String>) -> Seq<Seq<char>> {
    Seq::new(args.len(), |i: int| args[i]@)
}

/// The text of an optional argument.
pub open spec fn opt_view(o: Option<String>) -> Option<Seq<char>> {
    match o {
        Some(s) => Some(s@),
        None => None,
    }
}

/// Reads the program's arguments (without the program name): `--in`/`-i`
/// and `--out`/`-o` paths, `--rate`/`-r` in Hz, `--quality`/`-q` (default
/// `balanced`), `--backend`/`-b` (default `auto`), and `--help`/`-h`.
pub fn parse_cli_args(args: &Vec<String>) -> (r: Result<CliRequest, Error>)
    ensures
        match cli_from(arg_views(args@), 0, cli_start()) {
            CliOutcome::Run { input, output, rate, quality, backend } => r matches Ok(
                CliRequest::Run(a),
            ) && a.input@ == input && a.output@ == output && a.rate == rate && a.quality
                == quality && a.backend == backend,
            CliOutcome::Help => r matches Ok(CliRequest::Help),
            CliOutcome::Fail(message) => r matches Err(Error::Cli(m)) && m@ == message,
        },
{
    let ghost views = arg_views(args@);
    let n = args.len();
    let mut input: Option<String> = None;
    let mut output: Option<String> = None;
    let mut rate: Option<u32> = None;
    let mut quality = Quality::Balanced;
    let mut backend = Backend::Auto;
    let mut i: usize = 0;
    while i < n
        invariant
            n == args.len(),
            views == arg_views(args@),
            0 <= i <= n,
            cli_from(views, 0, cli_start()) == cli_from(
                views,
                i as int,
                CliState { input: opt_view(input), output: opt_view(output), rate, quality, backend },
            ),
        decreases n - i,
    {
        let ghost st = CliState {
            input: opt_view(input),
            output: opt_view(output),
            rate,
            quality,
            backend,
        };
        let a = args[i].as_str();
        let has_value = i + 1 < n;
        let next = if has_value {
            i + 2
        } else {
            n
        };
        assert(cli_from(views, next as int, st) == cli_from(views, i as int + 2, st)) by {
            if !has_value {
                assert(cli_from(views, next as int, st) == cli_finish(st));
                assert(cli_from(views, i as int + 2, st) == cli_finish(st));
            }
        }
        if str_equals(a, "--in") || str_equals(a, "-i") {
            input = if has_value {
                Some(args[i + 1].clone())
            } else {
                None
            };
            proof {
                assert(cli_from(views, next as int, CliState { input: opt_view(input), ..st })
                    == cli_from(views, i as int + 2, CliState { input: opt_view(input), ..st })) by {
                    if !has_value {
                        assert(cli_from(views, i as int + 2, CliState { input: opt_view(input), ..st })
                            == cli_finish(CliState { input: opt_view(input), ..st }));
                    }
                }
            }
            i = next;
        } else if str_equals(a, "--out") || str_equals(a, "-o") {
            output = if has_value {
                Some(args[i + 1].clone())
            } else {
                None
            };
            proof {
                assert(cli_from(views, next as int, CliState { output: opt_view(output), ..st })
                    == cli_from(views, i as int + 2, CliState { output: opt_view(output), ..st }))
                    by {
                    if !has_value {
                        assert(cli_from(
                            views,
                            i as int + 2,
                            CliState { output: opt_view(output), ..st },
                        ) == cli_finish(CliState { output: opt_view(output), ..st }));
                    }
                }
            }
            i = next;
        } else if str_equals(a, "--rate") || str_equals(a, "-r") {
            if !has_value {
                return Err(Error::Cli(String::from_str("--rate requires a value")));
            }
            match parse_u32(args[i + 1].as_str()) {
                Ok(v) => {
                    rate = Some(v);
                },
                Err(m) => {
                    return Err(Error::Cli(m));
                },
            }
            i = next;
        } else if str_equals(a, "--quality") || str_equals(a, "-q") {
            if !has_value {
                return Err(Error::Cli(String::from_str("--quality requires a value")));
            }
            match parse_quality(args[i + 1].as_str()) {
                Ok(q) => {
                    quality = q;
                },
                Err(e) => {
                    return Err(e);
                },
            }
            i = next;
        } else if str_equals(a, "--backend") || str_equals(a, "-b") {
            if !has_value {
                return Err(Error::Cli(String::from_str("--backend requires a value")));
            }
            match parse_backend(args[i + 1].as_str()) {
                Ok(b) => {
                    backend = b;
                },
                Err(e) => {
                    return Err(e);
                },
            }
            i = next;
        } else if str_equals(a, "--help") || str_equals(a, "-h") {
            return Ok(CliRequest::Help);
        } else {
            let mut message = String::from_str("unknown argument: ");
            message.append(a);
            return Err(Error::Cli(message));
        }
    }
    let input = match input {
        Some(p) => p,
        None => {
            return Err(Error::Cli(String::from_str("--in is required")));
        },
    };
    let output = match output {
        Some(p) => p,
        None => {
            return Err(Error::Cli(String::from_str("--out is required")));
        },
    };
    let rate = match rate {
        Some(v) => v,
        None => {
            return Err(Error::Cli(String::from_str("--rate is required")));
        },
    };
    Ok(CliRequest::Run(CliArgs { input, output, rate, quality, backend }))
}

/// The sample types the program reads and writes.
#[derive(Debug, Clone, Copy, PartialEq, Eq)]
pub enum WavSampleType {
    /// 32-bit IEEE float samples.
    F32,
    /// 16-bit integer PCM samples.
    I16,
}

/// The message for a WAV file whose samples the program cannot read.
pub open spec fn spec_unsupported_wav(float: bool, bits_per_sample: u16) -> Seq<char> {
    "unsupported WAV format: "@ + (if float {
        "Float"@
    } else {
        "Int"@
    }) + " with "@ + spec_decimal(bits_per_sample as nat)
        + " bits per sample; supported formats are f32 and i16 PCM"@
}

/// The sample type of a WAV file with float (`float`) or integer samples of
/// `bits_per_sample` bits: 32-bit float and 16-bit integer are supported.
pub fn wav_sample_type(float: bool, bits_per_sample: u16) -> (r: Result<WavSampleType, Error>)
    ensures
        float && bits_per_sample == 32 ==> r == Ok::<WavSampleType, Error>(WavSampleType::F32),
        !float && bits_per_sample == 16 ==> r == Ok::<WavSampleType, Error>(WavSampleType::I16),
        !(float && bits_per_sample == 32) && !(!float && bits_per_sample == 16) ==> (r matches Err(
            Error::Cli(m),
        ) && m@ == spec_unsupported_wav(float, bits_per_sample)),
{
    if float && bits_per_sample == 32 {
        return Ok(WavSampleType::F32);
    }
    if !float && bits_per_sample == 16 {
        return Ok(WavSampleType::I16);
    }
    let mut m = String::from_str("unsupported WAV format: ");
    if float {
        m.append("Float");
    } else {
        m.append("Int");
    }
    m.append(" with ");
    push_decimal(&mut m, bits_per_sample as u64);
    m.append(" bits per sample; supported formats are f32 and i16 PCM");
    Err(Error::Cli(m))
}

} // verus!
