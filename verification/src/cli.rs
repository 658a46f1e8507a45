//! The command line.
//!
//! Every word of the command line is looked at in turn, the program's own
//! name included. A word that is a known flag makes one directive; where the
//! flag takes a value, the value is the word after it. That word is looked
//! at again in its own turn, so a value that starts with a dash is also
//! reported as an unknown flag.
//!
//! Values that are real numbers are checked here and not converted: a
//! directive for one of them names the option and the place of the word
//! that holds the value, which is the text of a real number then.

use vstd::prelude::*;
use vstd::string::*;
use crate::decimal::{i32_of, is_real, is_real_literal, parse_i32, parse_usize, usize_of};
use crate::settings::{Quality, RealOption, VaryingType};
use crate::text::{characters, is_text};

verus! {

/// What one word of the command line is, taken by itself.
#[derive(Clone, Copy, Debug, PartialEq, Eq, Structural)]
pub enum Flag {
    Help,
    Pendulums,
    Vary,
    Real(RealOption),
    Quality,
    Compile,
    Frames,
    /// A word that starts with a dash and is none of the flags.
    Unknown,
    /// Any other word.
    Plain,
}

/// The parameter that a word names as the one to vary; a word that names
/// none stands for the angle.
pub open spec fn varying_of(word: Seq<char>) -> VaryingType {
    if word == "length1"@ {
        VaryingType::Length1
    } else if word == "length2"@ {
        VaryingType::Length2
    } else if word == "mass1"@ {
        VaryingType::Mass1
    } else if word == "mass2"@ {
        VaryingType::Mass2
    } else {
        VaryingType::Angle
    }
}

/// The option with a real value that a word is a flag of, if it is one.
pub open spec fn real_option_of(word: Seq<char>) -> Option<RealOption> {
    if word == "-s"@ || word == "--separation"@ {
        Some(RealOption::Separation)
    } else if word == "-m1"@ || word == "--mass1"@ {
        Some(RealOption::Mass1)
    } else if word == "-m2"@ || word == "--mass2"@ {
        Some(RealOption::Mass2)
    } else if word == "-r1"@ || word == "--radius1"@ {
        Some(RealOption::Radius1)
    } else if word == "-r2"@ || word == "--radius2"@ {
        Some(RealOption::Radius2)
    } else if word == "-mag"@ || word == "--magnification"@ {
        Some(RealOption::Magnification)
    } else if word == "-g"@ || word == "--gravity"@ {
        Some(RealOption::Gravity)
    } else if word == "-pt"@ || word == "--transparency"@ {
        Some(RealOption::Transparency)
    } else if word == "-pw"@ || word == "--width"@ {
        Some(RealOption::Width)
    } else if word == "-speed"@ {
        Some(RealOption::Speed)
    } else {
        None
    }
}

/// What a word is, taken by itself.
pub open spec fn flag_of(word: Seq<char>) -> Flag {
    if word == "-h"@ || word == "--help"@ {
        Flag::Help
    } else if word == "-p"@ || word == "--pendulums"@ || word == "-n"@ {
        Flag::Pendulums
    } else if word == "-v"@ || word == "--vary"@ {
        Flag::Vary
    } else if word == "-q"@ || word == "--quality"@ {
        Flag::Quality
    } else if word == "-c"@ || word == "--compile"@ {
        Flag::Compile
    } else if word == "-f"@ || word == "--frames"@ {
        Flag::Frames
    } else {
        match real_option_of(word) {
            Some(option) => Flag::Real(option),
            None => if word.len() > 0 && word[0] == '-' {
                Flag::Unknown
            } else {
                Flag::Plain
            },
        }
    }
}

/// Reads the name of the parameter to vary.
pub fn parse_varying(word: &str) -> (v: VaryingType)
    ensures
        v == varying_of(word@),
{
    let word = characters(word);
    if is_text(&word, "length1") {
        VaryingType::Length1
    } else if is_text(&word, "length2") {
        VaryingType::Length2
    } else if is_text(&word, "mass1") {
        VaryingType::Mass1
    } else if is_text(&word, "mass2") {
        VaryingType::Mass2
    } else {
        VaryingType::Angle
    }
}

/// Tells of which option with a real value a word is a flag.
fn real_option(word: &Vec<char>) -> (o: Option<RealOption>)
    ensures
        o == real_option_of(word@),
{
    if is_text(word, "-s") || is_text(word, "--separation") {
        Some(RealOption::Separation)
    } else if is_text(word, "-m1") || is_text(word, "--mass1") {
        Some(RealOption::Mass1)
    } else if is_text(word, "-m2") || is_text(word, "--mass2") {
        Some(RealOption::Mass2)
    } else if is_text(word, "-r1") || is_text(word, "--radius1") {
        Some(RealOption::Radius1)
    } else if is_text(word, "-r2") || is_text(word, "--radius2") {
        Some(RealOption::Radius2)
    } else if is_text(word, "-mag") || is_text(word, "--magnification") {
        Some(RealOption::Magnification)
    } else if is_text(word, "-g") || is_text(word, "--gravity") {
        Some(RealOption::Gravity)
    } else if is_text(word, "-pt") || is_text(word, "--transparency") {
        Some(RealOption::Transparency)
    } else if is_text(word, "-pw") || is_text(word, "--width") {
        Some(RealOption::Width)
    } else if is_text(word, "-speed") {
        Some(RealOption::Speed)
    } else {
        None
    }
}

/// Tells what a word is, taken by itself.
pub fn classify(word: &str) -> (flag: Flag)
    ensures
        flag == flag_of(word@),
{
    let word = characters(word);
    if is_text(&word, "-h") || is_text(&word, "--help") {
        Flag::Help
    } else if is_text(&word, "-p") || is_text(&word, "--pendulums") || is_text(&word, "-n") {
        Flag::Pendulums
    } else if is_text(&word, "-v") || is_text(&word, "--vary") {
        Flag::Vary
    } else if is_text(&word, "-q") || is_text(&word, "--quality") {
        Flag::Quality
    } else if is_text(&word, "-c") || is_text(&word, "--compile") {
        Flag::Compile
    } else if is_text(&word, "-f") || is_text(&word, "--frames") {
        Flag::Frames
    } else {
        match real_option(&word) {
            Some(option) => Flag::Real(option),
            None => if word.len() > 0 && word[0] == '-' {
                Flag::Unknown
            } else {
                Flag::Plain
            },
        }
    }
}

/// What one position of the command line asks for.
#[derive(Clone, Copy, Debug, PartialEq, Eq, Structural)]
pub enum Directive {
    /// Print the usage and stop.
    Help,
    /// Simulate this many pendulums.
    Pendulums(usize),
    /// Let this parameter differ from one pendulum to the next.
    Vary(VaryingType),
    /// Set `option` to the real number whose text is the word at
    /// `value_at`.
    Real { option: RealOption, value_at: usize },
    /// Draw at this tier.
    Quality(Quality),
    /// Write the frames to disk and encode them, instead of showing them.
    Compile,
    /// Write this many frames.
    Frames(i32),
    /// The word is a flag that is not known: warn, and go on.
    Unknown,
    /// The word asks for nothing.
    Nothing,
}

/// Why the reading of the command line stopped early.
#[derive(Clone, Copy, Debug, PartialEq, Eq, Structural)]
pub enum ArgError {
    /// The flag at `flag_at` takes a value and is the last word.
    MissingValue { flag_at: usize },
    /// The word at `value_at` is the value of a flag that takes an integer,
    /// and does not denote one that the option can hold.
    InvalidInteger { value_at: usize },
    /// The word at `value_at` is the value of a flag that takes a real
    /// number, and is not the text of one.
    InvalidReal { value_at: usize },
}

impl Flag {
    /// Whether the flag takes the word after it as its value.
    pub open spec fn has_value(self) -> bool {
        match self {
            Flag::Pendulums | Flag::Vary | Flag::Real(_) | Flag::Quality | Flag::Frames => true,
            _ => false,
        }
    }

    /// Whether the flag takes the word after it as its value.
    pub fn takes_value(self) -> (takes: bool)
        ensures
            takes == self.has_value(),
    {
        match self {
            Flag::Pendulums | Flag::Vary | Flag::Real(_) | Flag::Quality | Flag::Frames => true,
            _ => false,
        }
    }
}

/// What a flag asks for that takes no value.
pub open spec fn bare_directive(flag: Flag) -> Directive
    recommends
        !flag.has_value(),
{
    match flag {
        Flag::Help => Directive::Help,
        Flag::Compile => Directive::Compile,
        Flag::Unknown => Directive::Unknown,
        _ => Directive::Nothing,
    }
}

/// What a flag asks for that takes the value `value`, the word at
/// `value_at`: a number of pendulums or of frames, or a tier by its number,
/// where the value denotes an integer of the option's kind; a parameter to
/// vary, whatever the value is; a real option, where the value is the text
/// of a real number.
pub open spec fn valued_directive(flag: Flag, value: Seq<char>, value_at: usize) -> Result<
    Directive,
    ArgError,
>
    recommends
        flag.has_value(),
{
    match flag {
        Flag::Pendulums => match usize_of(value) {
            Some(n) => Ok(Directive::Pendulums(n)),
            None => Err(ArgError::InvalidInteger { value_at }),
        },
        Flag::Vary => Ok(Directive::Vary(varying_of(value))),
        Flag::Real(option) => if is_real_literal(value) {
            Ok(Directive::Real { option, value_at })
        } else {
            Err(ArgError::InvalidReal { value_at })
        },
        Flag::Quality => match i32_of(value) {
            Some(level) => Ok(Directive::Quality(Quality::of_level(level as int))),
            None => Err(ArgError::InvalidInteger { value_at }),
        },
        Flag::Frames => match i32_of(value) {
            Some(n) => Ok(Directive::Frames(n)),
            None => Err(ArgError::InvalidInteger { value_at }),
        },
        _ => Ok(bare_directive(flag)),
    }
}

/// What position `i` of the command line `words` asks for.
pub open spec fn directive_of(words: Seq<Seq<char>>, i: int) -> Result<Directive, ArgError>
    recommends
        0 <= i < words.len(),
{
    let flag = flag_of(words[i]);
    if !flag.has_value() {
        Ok(bare_directive(flag))
    } else if i + 1 < words.len() {
        valued_directive(flag, words[i + 1], (i + 1) as usize)
    } else {
        Err(ArgError::MissingValue { flag_at: i as usize })
    }
}

/// Reads the value of a flag that takes one.
fn read_value(flag: Flag, value: &str, value_at: usize) -> (r: Result<Directive, ArgError>)
    requires
        flag.has_value(),
    ensures
        r == valued_directive(flag, value@, value_at),
{
    match flag {
        Flag::Pendulums => match parse_usize(value) {
            Some(n) => Ok(Directive::Pendulums(n)),
            None => Err(ArgError::InvalidInteger { value_at }),
        },
        Flag::Vary => Ok(Directive::Vary(parse_varying(value))),
        Flag::Real(option) => if is_real(value) {
            Ok(Directive::Real { option, value_at })
        } else {
            Err(ArgError::InvalidReal { value_at })
        },
        Flag::Quality => match parse_i32(value) {
            Some(level) => Ok(Directive::Quality(Quality::from_level(level))),
            None => Err(ArgError::InvalidInteger { value_at }),
        },
        _ => match parse_i32(value) {
            Some(n) => Ok(Directive::Frames(n)),
            None => Err(ArgError::InvalidInteger { value_at }),
        },
    }
}

/// Tells what position `i` of the command line asks for.
///
/// A flag with a value fails with `MissingValue` when no word follows it.
/// A flag with an integer value fails with `InvalidInteger` when the word
/// after it is not such an integer, and one with a real value fails with
/// `InvalidReal` when the word after it is not the text of a real number.
/// Nothing else fails.
pub fn directive_at(args: &Vec<String>, i: usize) -> (r: Result<Directive, ArgError>)
    requires
        i < args.len(),
    ensures
        r == directive_of(args.deep_view(), i as int),
{
    let flag = classify(args[i].as_str());
    if !flag.takes_value() {
        Ok(
            match flag {
                Flag::Help => Directive::Help,
                Flag::Compile => Directive::Compile,
                Flag::Unknown => Directive::Unknown,
                _ => Directive::Nothing,
            },
        )
    } else if i + 1 < args.len() {
        read_value(flag, args[i + 1].as_str(), i + 1)
    } else {
        Err(ArgError::MissingValue { flag_at: i })
    }
}

/// Where a directive and an error point: the value of a real option is the
/// word after its flag, which is there and is the text of a real number;
/// a missing value is missed at the flag itself, which is the last word;
/// and a value that is refused is the word after its flag.
pub proof fn lemma_directive_places(words: Seq<Seq<char>>, i: int)
    requires
        0 <= i < words.len() <= usize::MAX,
    ensures
        match directive_of(words, i) {
            Ok(Directive::Real { option, value_at }) => {
                &&& value_at == i + 1 < words.len()
                &&& flag_of(words[i]) == Flag::Real(option)
                &&& is_real_literal(words[value_at as int])
            },
            Ok(_) => true,
            Err(ArgError::MissingValue { flag_at }) => flag_at == i == words.len() - 1,
            Err(ArgError::InvalidInteger { value_at }) => value_at == i + 1 < words.len(),
            Err(ArgError::InvalidReal { value_at }) => {
                &&& value_at == i + 1 < words.len()
                &&& !is_real_literal(words[value_at as int])
            },
        },
{
}

/// The directives of the positions from `from` on, up to the first request
/// for help, which is the last directive then, or up to the first position
/// that fails, whose error comes with the directives before it.
pub open spec fn scan_from(words: Seq<Seq<char>>, from: int) -> (Seq<Directive>, Option<ArgError>)
    decreases words.len() - from,
{
    if from < 0 || from >= words.len() {
        (Seq::empty(), None)
    } else {
        match directive_of(words, from) {
            Err(e) => (Seq::empty(), Some(e)),
            Ok(Directive::Help) => (seq![Directive::Help], None),
            Ok(d) => {
                let rest = scan_from(words, from + 1);
                (seq![d] + rest.0, rest.1)
            },
        }
    }
}

/// What reading a command line gave.
#[derive(Debug, PartialEq, Eq)]
pub struct Scan {
    /// The directives in the order of the words; directive `k` is that of
    /// word `k`.
    pub directives: Vec<Directive>,
    /// The failure at the word after the last directive, if there was one.
    pub error: Option<ArgError>,
}

/// Reads a command line from its first word on.
///
/// Reading stops after the first request for help, and at the first word
/// that fails.
pub fn scan(args: &Vec<String>) -> (s: Scan)
    ensures
        (s.directives@, s.error) == scan_from(args.deep_view(), 0),
{
    let ghost words = args.deep_view();
    let mut directives: Vec<Directive> = Vec::new();
    let mut error: Option<ArgError> = None;
    let mut i: usize = 0;
    let mut stop = false;
    while !stop && i < args.len()
        invariant
            i <= args.len(),
            words == args.deep_view(),
            stop ==> scan_from(words, 0) == (directives@, error),
            !stop ==> error is None,
            !stop ==> scan_from(words, 0) == (
                directives@ + scan_from(words, i as int).0,
                scan_from(words, i as int).1,
            ),
        decreases args.len() - i + if stop { 0int } else { 1int },
    {
        match directive_at(args, i) {
            Err(e) => {
                error = Some(e);
                stop = true;
            },
            Ok(d) => {
                directives.push(d);
                match d {
                    Directive::Help => {
                        stop = true;
                    },
                    _ => {},
                }
                i = i + 1;
            },
        }
    }
    Scan { directives, error }
}

/// Reading from position `from` on takes the words one by one: directive
/// `k` is that of word `from + k`, only the last directive can be a request
/// for help, an error is that of the word after the last directive, and
/// without an error the reading ends with the last word or with a request
/// for help.
pub proof fn lemma_scan_word_by_word(words: Seq<Seq<char>>, from: int)
    requires
        0 <= from <= words.len(),
    ensures
        ({
            let (ds, error) = scan_from(words, from);
            &&& from + ds.len() <= words.len()
            &&& forall|k: int|
                0 <= k < ds.len() ==> directive_of(words, from + k) == Ok::<Directive, ArgError>(
                    #[trigger] ds[k],
                )
            &&& forall|k: int| 0 <= k < ds.len() - 1 ==> #[trigger] ds[k] != Directive::Help
            &&& match error {
                Some(e) => {
                    &&& from + ds.len() < words.len()
                    &&& directive_of(words, from + ds.len()) == Err::<Directive, ArgError>(e)
                    &&& ds.len() > 0 ==> ds.last() != Directive::Help
                },
                None => {
                    ||| from + ds.len() == words.len()
                    ||| ds.len() > 0 && ds.last() == Directive::Help
                },
            }
        }),
    decreases words.len() - from,
{
    if from < words.len() {
        match directive_of(words, from) {
            Err(e) => {},
            Ok(Directive::Help) => {},
            Ok(d) => {
                lemma_scan_word_by_word(words, from + 1);
            },
        }
    }
}

/// The settings of a run that are counts and choices.
#[derive(Clone, Copy, Debug, PartialEq, Eq, Structural)]
pub struct Options {
    /// How many pendulums are simulated.
    pub pendulums: usize,
    /// The parameter that differs from one pendulum to the next.
    pub varying: VaryingType,
    /// How much is drawn of each pendulum.
    pub quality: Quality,
    /// Whether the frames are written to disk and encoded.
    pub compile: bool,
    /// How many frames are written then.
    pub frames: i32,
}

/// The number of pendulums of a run that is not told another.
pub const DEFAULT_PENDULUMS: usize = 50_000;

/// The number of frames of an export that is not told another.
pub const DEFAULT_FRAMES: i32 = 50;

/// One of the settings that `Options` holds.
#[derive(Clone, Copy, Debug, PartialEq, Eq, Structural)]
pub enum Choice {
    Pendulums,
    Varying,
    Quality,
    Compile,
    Frames,
}

/// The setting that a directive gives a value to, if it does.
pub open spec fn choice_of(d: Directive) -> Option<Choice> {
    match d {
        Directive::Pendulums(_) => Some(Choice::Pendulums),
        Directive::Vary(_) => Some(Choice::Varying),
        Directive::Quality(_) => Some(Choice::Quality),
        Directive::Compile => Some(Choice::Compile),
        Directive::Frames(_) => Some(Choice::Frames),
        _ => None,
    }
}

/// Whether two values of `Options` hold the same for one setting.
pub open spec fn agree_on(a: Options, b: Options, choice: Choice) -> bool {
    match choice {
        Choice::Pendulums => a.pendulums == b.pendulums,
        Choice::Varying => a.varying == b.varying,
        Choice::Quality => a.quality == b.quality,
        Choice::Compile => a.compile == b.compile,
        Choice::Frames => a.frames == b.frames,
    }
}

impl Options {
    /// The settings of a run whose command line sets none of them.
    pub open spec fn initial() -> Options {
        Options {
            pendulums: DEFAULT_PENDULUMS,
            varying: VaryingType::Angle,
            quality: Quality::Low,
            compile: false,
            frames: DEFAULT_FRAMES,
        }
    }

    /// The settings after one more directive.
    pub open spec fn applied(self, d: Directive) -> Options {
        match d {
            Directive::Pendulums(n) => Options { pendulums: n, ..self },
            Directive::Vary(v) => Options { varying: v, ..self },
            Directive::Quality(q) => Options { quality: q, ..self },
            Directive::Compile => Options { compile: true, ..self },
            Directive::Frames(n) => Options { frames: n, ..self },
            _ => self,
        }
    }

    /// The settings after a run of directives, the first applied first.
    pub open spec fn folded(ds: Seq<Directive>) -> Options
        decreases ds.len(),
    {
        if ds.len() == 0 {
            Options::initial()
        } else {
            Options::folded(ds.drop_last()).applied(ds.last())
        }
    }

    /// The settings of a run whose command line sets none of them.
    pub fn new() -> (o: Options)
        ensures
            o == Options::initial(),
    {
        Options {
            pendulums: DEFAULT_PENDULUMS,
            varying: VaryingType::Angle,
            quality: Quality::Low,
            compile: false,
            frames: DEFAULT_FRAMES,
        }
    }

    /// Takes one more directive into the settings.
    pub fn apply(&mut self, d: Directive)
        ensures
            *final(self) == old(self).applied(d),
    {
        match d {
            Directive::Pendulums(n) => {
                self.pendulums = n;
            },
            Directive::Vary(v) => {
                self.varying = v;
            },
            Directive::Quality(q) => {
                self.quality = q;
            },
            Directive::Compile => {
                self.compile = true;
            },
            Directive::Frames(n) => {
                self.frames = n;
            },
            _ => {},
        }
    }

    /// The settings that a run of directives leaves, starting from those
    /// of `new`.
    pub fn from_directives(directives: &Vec<Directive>) -> (o: Options)
        ensures
            o == Options::folded(directives@),
    {
        let mut o = Options::new();
        let mut i: usize = 0;
        while i < directives.len()
            invariant
                i <= directives.len(),
                o == Options::folded(directives@.take(i as int)),
            decreases directives.len() - i,
        {
            assert(directives@.take(i + 1).drop_last() =~= directives@.take(i as int));
            o.apply(directives[i]);
            i = i + 1;
        }
        assert(directives@.take(i as int) =~= directives@);
        o
    }
}

/// The last directive for a setting decides it: where directive `k` gives
/// a value to a setting and none after it does, the settings hold for it
/// what that directive alone would have made of it.
pub proof fn lemma_last_directive_decides(ds: Seq<Directive>, k: int, choice: Choice)
    requires
        0 <= k < ds.len(),
        choice_of(ds[k]) == Some(choice),
        forall|j: int| k < j < ds.len() ==> choice_of(#[trigger] ds[j]) != Some(choice),
    ensures
        agree_on(Options::folded(ds), Options::initial().applied(ds[k]), choice),
    decreases ds.len(),
{
    if k < ds.len() - 1 {
        lemma_last_directive_decides(ds.drop_last(), k, choice);
    }
}

/// A setting that no directive gives a value to keeps the value it starts
/// with.
pub proof fn lemma_unset_choice_keeps_default(ds: Seq<Directive>, choice: Choice)
    requires
        forall|j: int| 0 <= j < ds.len() ==> choice_of(#[trigger] ds[j]) != Some(choice),
    ensures
        agree_on(Options::folded(ds), Options::initial(), choice),
    decreases ds.len(),
{
    if ds.len() > 0 {
        lemma_unset_choice_keeps_default(ds.drop_last(), choice);
    }
}

} // verus!
