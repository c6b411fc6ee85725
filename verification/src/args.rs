//! The settings of one run, made from what was given on the command line.

use vstd::prelude::*;
use vstd::string::StringExecFns;
use vstd::utf8::encode_utf8;
use crate::error::Error;

verus! {

/// How much is logged.
#[derive(Clone, Copy, Debug, PartialEq, Eq, Structural)]
pub enum LogLevel {
    Debug,
    Info,
    Warn,
    Error,
}

/// What is written for the records that were read.
#[derive(Clone, Copy, Debug, PartialEq, Eq, Structural)]
pub enum OutputType {
    /// The records are read and checked, nothing is written.
    Nothing,
    Raw,
    Csv,
}

/// What the command line gave, before any of it is checked.
pub struct Arguments {
    pub input_file: String,
    /// The name of the input file without directory and extension, where it
    /// has one.
    pub input_stem: Option<String>,
    pub output_path: Option<String>,
    pub output_type: Option<String>,
    pub log_level: Option<String>,
    pub force_overwrite: bool,
    pub no_verify_mac: bool,
    pub no_in_memory_db: bool,
    /// The passphrase as it was typed, read from a file or printed by a
    /// command; spaces between the digits are common.
    pub password: Option<String>,
}

/// The settings of one run.
pub struct Config {
    /// Path to the input file.
    pub path_input: String,
    /// Path to the output directory.
    pub path_output: String,
    /// The passphrase: thirty digits.
    pub password: Vec<u8>,
    /// Whether tags are compared.
    pub verify_mac: bool,
    pub log_level: LogLevel,
    /// Whether existing output files are overwritten.
    pub force_overwrite: bool,
    pub output_type: OutputType,
    /// Whether the database is built in memory.
    pub output_raw_db_in_memory: bool,
}

/// What `str::to_lowercase` makes of a text.
pub uninterp spec fn lowercased(s: Seq<char>) -> Seq<char>;

/// Calls `str::to_lowercase`. Trusted: the result is the lowercase form of
/// the text, which depends on the text alone.
#[verifier::external_body]
pub(crate) fn to_lowercase(s: &str) -> (r: String)
    ensures
        r@ == lowercased(s@),
{
    s.to_lowercase()
}

/// Whether `b` is ASCII whitespace: a space, a tabulator, or one of the
/// four characters that end or feed a line.
pub open spec fn is_space(b: u8) -> bool {
    b == 0x20 || 0x09 <= b <= 0x0d
}

/// The bytes of `bytes` that are no whitespace, in their order.
pub open spec fn without_spaces(bytes: Seq<u8>) -> Seq<u8> {
    bytes.filter(|b: u8| !is_space(b))
}

/// The level that a word in lower case names.
pub open spec fn level_named(lower: Seq<char>) -> Result<LogLevel, Error> {
    if lower == "debug"@ {
        Ok(LogLevel::Debug)
    } else if lower == "info"@ {
        Ok(LogLevel::Info)
    } else if lower == "warn"@ {
        Ok(LogLevel::Warn)
    } else if lower == "error"@ {
        Ok(LogLevel::Error)
    } else {
        Err(Error::Config)
    }
}

/// The level that a word names, whatever its case; without a word it is
/// `Info`.
pub open spec fn level_of(word: Option<Seq<char>>) -> Result<LogLevel, Error> {
    match word {
        None => Ok(LogLevel::Info),
        Some(w) => level_named(lowercased(w)),
    }
}

/// The output that a word in lower case names.
pub open spec fn output_named(lower: Seq<char>) -> Result<OutputType, Error> {
    if lower == "none"@ {
        Ok(OutputType::Nothing)
    } else if lower == "raw"@ {
        Ok(OutputType::Raw)
    } else if lower == "csv"@ {
        Ok(OutputType::Csv)
    } else {
        Err(Error::Config)
    }
}

/// The output that a word names, whatever its case; without a word it is
/// `Raw`.
pub open spec fn output_of(word: Option<Seq<char>>) -> Result<OutputType, Error> {
    match word {
        None => Ok(OutputType::Raw),
        Some(w) => output_named(lowercased(w)),
    }
}

/// The passphrase in what was given: what is left of its bytes without the
/// whitespace must be thirty digits. Anything else among them is refused.
pub open spec fn passphrase_of(given: Option<Seq<char>>) -> Result<Seq<u8>, Error> {
    match given {
        None => Err(Error::Config),
        Some(t) => if crate::keys::valid_passphrase(without_spaces(encode_utf8(t))) {
            Ok(without_spaces(encode_utf8(t)))
        } else {
            Err(Error::Config)
        },
    }
}

/// The output directory: the one that was given, else the stem of the input
/// file's name.
pub open spec fn output_path_of(given: Option<Seq<char>>, stem: Option<Seq<char>>) -> Result<
    Seq<char>,
    Error,
> {
    match (given, stem) {
        (Some(p), _) => Ok(p),
        (None, Some(s)) => Ok(s),
        (None, None) => Err(Error::Config),
    }
}

/// Whether `a` and `b` are the same text.
pub fn same_text(a: &str, b: &str) -> (r: bool)
    ensures
        r == (a@ == b@),
{
    let left: String = String::from_str(a);
    let right: String = String::from_str(b);
    left == right
}

/// Drops the whitespace of `bytes`.
pub fn strip_whitespace(bytes: &[u8]) -> (r: Vec<u8>)
    ensures
        r@ == without_spaces(bytes@),
{
    let mut out: Vec<u8> = Vec::new();
    let mut i: usize = 0;
    assert(bytes@.take(0) =~= Seq::<u8>::empty());
    while i < bytes.len()
        invariant
            i <= bytes@.len(),
            out@ == without_spaces(bytes@.take(i as int)),
        decreases bytes@.len() - i,
    {
        let b: u8 = bytes[i];
        proof {
            reveal(Seq::filter);
            assert(bytes@.take(i + 1).drop_last() =~= bytes@.take(i as int));
        }
        if !(b == 0x20 || (0x09 <= b && b <= 0x0d)) {
            out.push(b);
        }
        i = i + 1;
    }
    assert(bytes@.take(i as int) =~= bytes@);
    out
}

/// The level that a word in lower case names.
pub fn level_by_name(lower: &str) -> (r: Result<LogLevel, Error>)
    ensures
        r == level_named(lower@),
{
    if same_text(lower, "debug") {
        Ok(LogLevel::Debug)
    } else if same_text(lower, "info") {
        Ok(LogLevel::Info)
    } else if same_text(lower, "warn") {
        Ok(LogLevel::Warn)
    } else if same_text(lower, "error") {
        Ok(LogLevel::Error)
    } else {
        Err(Error::Config)
    }
}

/// The output that a word in lower case names.
pub fn output_by_name(lower: &str) -> (r: Result<OutputType, Error>)
    ensures
        r == output_named(lower@),
{
    if same_text(lower, "none") {
        Ok(OutputType::Nothing)
    } else if same_text(lower, "raw") {
        Ok(OutputType::Raw)
    } else if same_text(lower, "csv") {
        Ok(OutputType::Csv)
    } else {
        Err(Error::Config)
    }
}

/// Reads the level that a word names.
pub fn parse_level(word: &Option<String>) -> (r: Result<LogLevel, Error>)
    ensures
        r == level_of(crate::fields::opt_text(*word)),
{
    match word {
        None => Ok(LogLevel::Info),
        Some(w) => {
            let lower: String = to_lowercase(w.as_str());
            level_by_name(lower.as_str())
        },
    }
}

/// Reads the output that a word names.
pub fn parse_output(word: &Option<String>) -> (r: Result<OutputType, Error>)
    ensures
        r == output_of(crate::fields::opt_text(*word)),
{
    match word {
        None => Ok(OutputType::Raw),
        Some(w) => {
            let lower: String = to_lowercase(w.as_str());
            output_by_name(lower.as_str())
        },
    }
}

/// Reads the passphrase out of what was given.
pub fn parse_password(given: &Option<String>) -> (r: Result<Vec<u8>, Error>)
    ensures
        crate::decrypter::plain_view(r) == passphrase_of(crate::fields::opt_text(*given)),
{
    match given {
        None => Err(Error::Config),
        Some(t) => {
            let kept: Vec<u8> = strip_whitespace(t.as_str().as_bytes());
            if crate::keys::is_valid_passphrase(kept.as_slice()) {
                Ok(kept)
            } else {
                Err(Error::Config)
            }
        },
    }
}

impl Config {
    /// Whether settings can be made from `args`: there is an output
    /// directory or a stem to take its place, a passphrase of thirty digits
    /// with nothing but whitespace between them, and the words for level and
    /// output are known.
    pub open spec fn accepts(args: &Arguments) -> bool {
        &&& output_path_of(
            crate::fields::opt_text(args.output_path),
            crate::fields::opt_text(args.input_stem),
        ) is Ok
        &&& passphrase_of(crate::fields::opt_text(args.password)) is Ok
        &&& level_of(crate::fields::opt_text(args.log_level)) is Ok
        &&& output_of(crate::fields::opt_text(args.output_type)) is Ok
    }

    /// Whether these are the settings that `args` give.
    pub open spec fn made_from(&self, args: &Arguments) -> bool {
        &&& self.path_input@ == args.input_file@
        &&& Ok::<Seq<char>, Error>(self.path_output@) == output_path_of(
            crate::fields::opt_text(args.output_path),
            crate::fields::opt_text(args.input_stem),
        )
        &&& Ok::<Seq<u8>, Error>(self.password@) == passphrase_of(
            crate::fields::opt_text(args.password),
        )
        &&& self.verify_mac == !args.no_verify_mac
        &&& Ok::<LogLevel, Error>(self.log_level) == level_of(
            crate::fields::opt_text(args.log_level),
        )
        &&& self.force_overwrite == args.force_overwrite
        &&& Ok::<OutputType, Error>(self.output_type) == output_of(
            crate::fields::opt_text(args.output_type),
        )
        &&& self.output_raw_db_in_memory == !args.no_in_memory_db
    }

    /// Checks what the command line gave and makes the settings of the run.
    pub fn new(args: Arguments) -> (r: Result<Config, Error>)
        ensures
            r is Ok <==> Config::accepts(&args),
            r is Ok ==> r->Ok_0.made_from(&args),
            r is Ok ==> crate::keys::valid_passphrase(r->Ok_0.password@),
            r is Err ==> r->Err_0 == Error::Config,
    {
        let password: Vec<u8> = match parse_password(&args.password) {
            Ok(p) => p,
            Err(_) => {
                return Err(Error::Config);
            },
        };
        let log_level: LogLevel = match parse_level(&args.log_level) {
            Ok(l) => l,
            Err(_) => {
                return Err(Error::Config);
            },
        };
        let output_type: OutputType = match parse_output(&args.output_type) {
            Ok(t) => t,
            Err(_) => {
                return Err(Error::Config);
            },
        };
        let Arguments {
            input_file,
            input_stem,
            output_path,
            output_type: _,
            log_level: _,
            force_overwrite,
            no_verify_mac,
            no_in_memory_db,
            password: _,
        } = args;
        let path_output: String = match (output_path, input_stem) {
            (Some(p), _) => p,
            (None, Some(s)) => s,
            (None, None) => {
                return Err(Error::Config);
            },
        };
        Ok(
            Config {
                path_input: input_file,
                path_output,
                password,
                verify_mac: !no_verify_mac,
                log_level,
                force_overwrite,
                output_type,
                output_raw_db_in_memory: !no_in_memory_db,
            },
        )
    }
}

} // verus!
