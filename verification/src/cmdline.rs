//! The command line: its options, and how their values are read. The
//! `clap` crate takes the arguments apart.

use clap::builder::ValueParserFactory;
use vstd::prelude::*;
use vstd::string::{StrSliceExecFns, StringExecFns};

verus! {

// ---------------------------------------------------------------------
// Numbers and permissions
// ---------------------------------------------------------------------

/// Why a text is no number.
#[derive(Clone, Copy, Debug, PartialEq, Eq, Structural)]
pub enum NumberError {
    /// The text is empty.
    Empty,
    /// The text holds something else than decimal digits after an optional
    /// `+`, or no digit at all.
    InvalidDigit,
    /// The number does not fit in 32 bits.
    TooLarge,
}

/// Why a text is no permission.
#[derive(Clone, Copy, Debug, PartialEq, Eq, Structural)]
pub enum PermsError {
    /// The text holds no comma.
    NoComma,
    /// What stands before the comma, or else what stands behind it, is no
    /// number.
    BadNumber(NumberError),
}

/// Whether `c` is a decimal digit.
pub open spec fn is_digit(c: char) -> bool {
    48 <= c as u32 <= 57
}

/// The number that decimal digits stand for.
pub open spec fn digits_value(digits: Seq<char>) -> nat
    decreases digits.len(),
{
    if digits.len() == 0 {
        0
    } else {
        digits_value(digits.drop_last()) * 10 + (digits.last() as u32 - 48) as nat
    }
}

/// Whether every character of `text` is a decimal digit.
pub open spec fn all_digits(text: Seq<char>) -> bool {
    forall|i: int| 0 <= i < text.len() ==> is_digit(#[trigger] text[i])
}

/// `text` without the `+` that may stand at its start.
pub open spec fn without_sign(text: Seq<char>) -> Seq<char> {
    if text.len() > 0 && text[0] == '+' {
        text.drop_first()
    } else {
        text
    }
}

/// The number that `text` stands for: decimal digits, one at least, after
/// an optional `+`, with a value that fits in 32 bits.
pub open spec fn spec_parse_number(text: Seq<char>) -> Result<u32, NumberError> {
    let digits = without_sign(text);
    if text.len() == 0 {
        Err(NumberError::Empty)
    } else if digits.len() == 0 || !all_digits(digits) {
        Err(NumberError::InvalidDigit)
    } else if digits_value(digits) > u32::MAX {
        Err(NumberError::TooLarge)
    } else {
        Ok(digits_value(digits) as u32)
    }
}

/// More digits never stand for a smaller number.
proof fn lemma_digits_value_grows(digits: Seq<char>, count: int)
    requires
        0 <= count <= digits.len(),
        all_digits(digits),
    ensures
        digits_value(digits.take(count)) <= digits_value(digits),
    decreases digits.len() - count,
{
    if count < digits.len() {
        lemma_digits_value_grows(digits, count + 1);
        assert(digits.take(count + 1).drop_last() =~= digits.take(count));
        assert(is_digit(digits[count]));
    } else {
        assert(digits.take(count) =~= digits);
    }
}

/// Reads a number from `text`.
pub fn parse_number(text: &str) -> (number: Result<u32, NumberError>)
    ensures
        number == spec_parse_number(text@),
{
    let length: usize = text.unicode_len();
    if length == 0 {
        return Err(NumberError::Empty);
    }
    let start: usize = if text.get_char(0) == '+' {
        1
    } else {
        0
    };
    let ghost digits = without_sign(text@);
    assert(digits =~= text@.subrange(start as int, length as int));
    if start == length {
        return Err(NumberError::InvalidDigit);
    }
    // Every character must be a digit.
    let mut index: usize = start;
    while index < length
        invariant
            start <= index <= length,
            length == text@.len(),
            length > 0,
            digits == without_sign(text@),
            digits == text@.subrange(start as int, length as int),
            forall|i: int| 0 <= i < index - start ==> is_digit(#[trigger] digits[i]),
        decreases length - index,
    {
        let c: char = text.get_char(index);
        if !(c >= '0' && c <= '9') {
            assert(!is_digit(digits[index - start]));
            return Err(NumberError::InvalidDigit);
        }
        index += 1;
    }
    assert(all_digits(digits));
    // The digits are taken in from the left.
    let mut value: u64 = 0;
    let mut index: usize = start;
    assert(digits.take(0) =~= Seq::<char>::empty());
    while index < length
        invariant
            start <= index <= length,
            length == text@.len(),
            length > 0,
            digits == without_sign(text@),
            digits == text@.subrange(start as int, length as int),
            all_digits(digits),
            value == digits_value(digits.take(index - start)),
            value <= u32::MAX,
        decreases length - index,
    {
        let c: char = text.get_char(index);
        proof {
            assert(digits.take(index - start + 1).drop_last() =~= digits.take(index - start));
            assert(digits.take(index - start + 1).last() == c);
            assert(is_digit(digits[index - start]));
            lemma_digits_value_grows(digits, index - start + 1);
        }
        let digit: u64 = (c as u32 - 48) as u64;
        value = value * 10 + digit;
        if value > 0xFFFF_FFFF {
            return Err(NumberError::TooLarge);
        }
        index += 1;
    }
    assert(digits.take(index - start) =~= digits);
    Ok(value as u32)
}

/// Whether the first comma of `text` stands at `index`.
pub open spec fn is_first_comma(text: Seq<char>, index: int) -> bool {
    &&& 0 <= index < text.len()
    &&& text[index] == ','
    &&& forall|j: int| 0 <= j < index ==> text[j] != ','
}

/// Whether the last comma of `text` stands at `index`.
pub open spec fn is_last_comma(text: Seq<char>, index: int) -> bool {
    &&& 0 <= index < text.len()
    &&& text[index] == ','
    &&& forall|j: int| index < j < text.len() ==> text[j] != ','
}

/// The permission that `text` stands for: a driver number and a command
/// number with a comma between them. The text is cut at its first comma.
pub open spec fn spec_parse_perms(text: Seq<char>) -> Result<(u32, u32), PermsError> {
    if exists|index: int| is_first_comma(text, index) {
        let index = choose|index: int| is_first_comma(text, index);
        match spec_parse_number(text.subrange(0, index)) {
            Err(error) => Err(PermsError::BadNumber(error)),
            Ok(driver) => match spec_parse_number(text.subrange(index + 1, text.len() as int)) {
                Err(error) => Err(PermsError::BadNumber(error)),
                Ok(command) => Ok((driver, command)),
            },
        }
    } else {
        Err(PermsError::NoComma)
    }
}

/// Reads a permission, a driver number and a command number with a comma
/// between them.
pub fn parse_perms(s: &str) -> (permission: Result<(u32, u32), PermsError>)
    ensures
        permission == spec_parse_perms(s@),
{
    let length: usize = s.unicode_len();
    let mut index: usize = 0;
    while index < length
        invariant
            index <= length,
            length == s@.len(),
            forall|j: int| 0 <= j < index ==> s@[j] != ',',
        decreases length - index,
    {
        if s.get_char(index) == ',' {
            proof {
                assert(is_first_comma(s@, index as int));
                let chosen = choose|i: int| is_first_comma(s@, i);
                assert(chosen == index) by {
                    if chosen < index {
                        assert(s@[chosen] != ',');
                    }
                    if index < chosen {
                        assert(s@[index as int] == ',');
                    }
                }
            }
            let driver: u32 = match parse_number(s.substring_char(0, index)) {
                Ok(driver) => driver,
                Err(error) => {
                    return Err(PermsError::BadNumber(error));
                },
            };
            let command: u32 = match parse_number(s.substring_char(index + 1, length)) {
                Ok(command) => command,
                Err(error) => {
                    return Err(PermsError::BadNumber(error));
                },
            };
            return Ok((driver, command));
        }
        index += 1;
    }
    assert forall|i: int| !is_first_comma(s@, i) by {
        if 0 <= i < s@.len() {
            assert(s@[i] != ',');
        }
    }
    Err(PermsError::NoComma)
}

impl PermsError {
    /// What is said of this error, for the text that was to be read.
    pub open spec fn spec_message(self, text: Seq<char>) -> Seq<char> {
        match self {
            PermsError::NoComma => "invalid number,option: no `,` found in `"@ + text + "`"@,
            PermsError::BadNumber(NumberError::Empty) => "cannot parse integer from empty string"@,
            PermsError::BadNumber(NumberError::InvalidDigit) => "invalid digit found in string"@,
            PermsError::BadNumber(NumberError::TooLarge) => "number too large to fit in target type"@,
        }
    }

    /// What is said of this error, for the text that was to be read.
    pub fn message(&self, text: &str) -> (message: String)
        ensures
            message@ == self.spec_message(text@),
    {
        match self {
            PermsError::NoComma => {
                let mut message = String::from_str("invalid number,option: no `,` found in `");
                message.append(text);
                message.append("`");
                message
            },
            PermsError::BadNumber(NumberError::Empty) => String::from_str(
                "cannot parse integer from empty string",
            ),
            PermsError::BadNumber(NumberError::InvalidDigit) => String::from_str(
                "invalid digit found in string",
            ),
            PermsError::BadNumber(NumberError::TooLarge) => String::from_str(
                "number too large to fit in target type",
            ),
        }
    }
}

// ---------------------------------------------------------------------
// Input files
// ---------------------------------------------------------------------

/// An image file to convert, and the architecture that it is for where
/// the caller names it.
#[derive(Debug, Clone)]
pub struct ElfFile {
    /// Where the image file lies.
    pub path: String,
    /// The architecture; taken from the name of the file where it is not
    /// given.
    pub architecture: Option<String>,
}

/// The path of an argument: what stands before its last comma, and all of
/// it where it holds none.
pub open spec fn argument_path(value: Seq<char>) -> Seq<char> {
    if exists|index: int| is_last_comma(value, index) {
        value.subrange(0, choose|index: int| is_last_comma(value, index))
    } else {
        value
    }
}

/// The architecture of an argument: what stands behind its last comma,
/// and none where it holds no comma.
pub open spec fn argument_architecture(value: Seq<char>) -> Option<Seq<char>> {
    if exists|index: int| is_last_comma(value, index) {
        Some(
            value.subrange(
                (choose|index: int| is_last_comma(value, index)) + 1,
                value.len() as int,
            ),
        )
    } else {
        None
    }
}

impl ElfFile {
    /// Reads an argument of the form `path` or `path,architecture`.
    pub fn from_text(value: &str) -> (file: ElfFile)
        ensures
            file.path@ == argument_path(value@),
            match file.architecture {
                Some(architecture) => argument_architecture(value@) == Some(architecture@),
                None => argument_architecture(value@).is_none(),
            },
    {
        let length: usize = value.unicode_len();
        let mut index: usize = length;
        while index > 0
            invariant
                index <= length,
                length == value@.len(),
                forall|j: int| index <= j < length ==> value@[j] != ',',
            decreases index,
        {
            index -= 1;
            if value.get_char(index) == ',' {
                proof {
                    assert(is_last_comma(value@, index as int));
                    let chosen = choose|i: int| is_last_comma(value@, i);
                    assert(chosen == index) by {
                        if chosen < index {
                            assert(value@[index as int] == ',');
                        }
                        if index < chosen {
                            assert(value@[chosen] != ',');
                        }
                    }
                }
                return ElfFile {
                    path: String::from_str(value.substring_char(0, index)),
                    architecture: Some(String::from_str(value.substring_char(index + 1, length))),
                };
            }
        }
        assert forall|i: int| !is_last_comma(value@, i) by {
            if 0 <= i < value@.len() {
                assert(value@[i] != ',');
            }
        }
        ElfFile { path: String::from_str(value), architecture: None }
    }
}

// ---------------------------------------------------------------------
// The options
// ---------------------------------------------------------------------

/// The options of the command line.
#[derive(Debug)]
pub struct Opt {
    pub verbose: bool,
    pub deterministic: bool,
    pub disabled: bool,
    pub app_version: u32,
    pub minimum_stack_size: Option<u32>,
    pub output: String,
    pub package_name: Option<String>,
    pub stack_size: Option<u32>,
    pub app_heap_size: u32,
    pub kernel_heap_size: u32,
    pub input: Vec<ElfFile>,
    pub protected_region_size: Option<u32>,
    pub permissions: Vec<(u32, u32)>,
    pub write_id: Option<u32>,
    pub read_ids: Option<Vec<u32>>,
    pub access_ids: Option<Vec<u32>>,
    pub short_id: Option<u32>,
    pub kernel_major: Option<u16>,
    pub kernel_minor: Option<u16>,
    pub supported_boards: Option<String>,
    pub minimum_footer_size: u32,
    pub sha256_enable: bool,
    pub sha384_enable: bool,
    pub sha512_enable: bool,
    pub rsa4096_private_key: Option<String>,
    pub rsa4096_public_key: Option<String>,
}

/// Why the arguments give no options: what is to be shown to the user,
/// whether it belongs on the error stream, and the exit code that goes with
/// it. A request for help or for the version comes this way too.
#[derive(Debug)]
pub struct CliError {
    pub message: String,
    pub use_stderr: bool,
    pub exit_code: i32,
}

/// The description of a command line.
#[verifier::external_type_specification]
#[verifier::external_body]
pub struct ExCommand(clap::Command);

/// The description of one argument.
#[verifier::external_type_specification]
#[verifier::external_body]
pub struct ExArg(clap::Arg);

/// What the arguments of one call gave.
#[verifier::external_type_specification]
#[verifier::external_body]
pub struct ExArgMatches(clap::ArgMatches);

// ---------------------------------------------------------------------
// What a description holds
// ---------------------------------------------------------------------

/// What an argument does with what it is given.
pub enum ArgumentAction {
    /// Its presence counts; it takes no value.
    SetTrue,
    /// The values of every use are kept.
    Append,
}

/// How the values of an argument are read.
pub enum ValueReader {
    /// A decimal number of 32 bits.
    U32,
    /// A decimal number of 16 bits.
    U16,
    /// A number of 32 bits in decimal, or in hexadecimal behind `0x`.
    HexU32,
    /// A text.
    Text,
    /// A permission, as `parse_perms` reads it.
    Permission,
    /// An image file, as `ElfFile::from_text` reads it.
    ElfFile,
}

/// What the description of one argument holds.
pub struct ArgumentView {
    /// The name under which the values are found.
    pub id: Seq<char>,
    /// The name behind `--`; an argument without one and without a letter
    /// is given by its place.
    pub long: Option<Seq<char>>,
    /// The letter behind `-`.
    pub short: Option<char>,
    pub help: Option<Seq<char>>,
    pub action: Option<ArgumentAction>,
    /// Whether one use takes one value or more.
    pub one_or_more: bool,
    pub required: bool,
    /// The values of an argument that is not used.
    pub default_values: Seq<Seq<char>>,
    /// The arguments that may not be used beside this one.
    pub conflicts: Seq<Seq<char>>,
    /// The arguments that must be used beside this one.
    pub needs: Seq<Seq<char>>,
    pub reader: Option<ValueReader>,
}

/// The name of a command, and what it says of itself and of its version.
pub struct CommandHeading {
    pub name: Seq<char>,
    pub about: Option<Seq<char>>,
    pub version: Option<Seq<char>>,
}

/// What the description of an argument holds.
pub uninterp spec fn argument_view(arg: clap::Arg) -> ArgumentView;

/// The arguments that a command holds, in the order in which they were
/// added.
pub uninterp spec fn command_arguments(command: clap::Command) -> Seq<ArgumentView>;

/// The heading that a command holds.
pub uninterp spec fn command_heading(command: clap::Command) -> CommandHeading;

/// The switch that `matches` holds under `id`.
pub uninterp spec fn matched_flag(matches: clap::ArgMatches, id: Seq<char>) -> Option<bool>;

/// The first 32-bit number that `matches` holds under `id`.
pub uninterp spec fn matched_u32(matches: clap::ArgMatches, id: Seq<char>) -> Option<u32>;

/// The first 16-bit number that `matches` holds under `id`.
pub uninterp spec fn matched_u16(matches: clap::ArgMatches, id: Seq<char>) -> Option<u16>;

/// The first text that `matches` holds under `id`.
pub uninterp spec fn matched_text(matches: clap::ArgMatches, id: Seq<char>) -> Option<Seq<char>>;

/// The 32-bit numbers that `matches` holds under `id`.
pub uninterp spec fn matched_numbers(matches: clap::ArgMatches, id: Seq<char>) -> Option<
    Seq<u32>,
>;

/// The permissions that `matches` holds under `id`.
pub uninterp spec fn matched_permissions(matches: clap::ArgMatches, id: Seq<char>) -> Option<
    Seq<(u32, u32)>,
>;

/// The image files that `matches` holds under `id`.
pub uninterp spec fn matched_files(matches: clap::ArgMatches, id: Seq<char>) -> Option<
    Seq<ElfFileView>,
>;

/// An argument of which nothing is said but its name.
pub open spec fn new_argument(id: Seq<char>) -> ArgumentView {
    ArgumentView {
        id,
        long: None,
        short: None,
        help: None,
        action: None,
        one_or_more: false,
        required: false,
        default_values: Seq::empty(),
        conflicts: Seq::empty(),
        needs: Seq::empty(),
        reader: None,
    }
}

/// An option that is given by its long name.
pub open spec fn spec_option(id: Seq<char>, name: Seq<char>, text: Seq<char>) -> ArgumentView {
    ArgumentView { long: Some(name), help: Some(text), ..new_argument(id) }
}

/// An argument that is given by its place.
pub open spec fn spec_positional(id: Seq<char>, text: Seq<char>) -> ArgumentView {
    ArgumentView { help: Some(text), ..new_argument(id) }
}

/// `argument` as a switch.
pub open spec fn as_switch(argument: ArgumentView) -> ArgumentView {
    ArgumentView { action: Some(ArgumentAction::SetTrue), ..argument }
}

/// `argument` as one that takes a list: one value or more at each use, and
/// the values of every use are kept.
pub open spec fn as_list(argument: ArgumentView) -> ArgumentView {
    ArgumentView { one_or_more: true, action: Some(ArgumentAction::Append), ..argument }
}

/// `argument` with a letter.
pub open spec fn with_short(argument: ArgumentView, letter: char) -> ArgumentView {
    ArgumentView { short: Some(letter), ..argument }
}

/// `argument` with a reader for its values.
pub open spec fn with_reader(argument: ArgumentView, reader: ValueReader) -> ArgumentView {
    ArgumentView { reader: Some(reader), ..argument }
}

/// `argument` with one value for when it is not used.
pub open spec fn with_default(argument: ArgumentView, value: Seq<char>) -> ArgumentView {
    ArgumentView { default_values: seq![value], ..argument }
}

/// `argument` with one more argument that may not be used beside it.
pub open spec fn with_conflict(argument: ArgumentView, other: Seq<char>) -> ArgumentView {
    ArgumentView { conflicts: argument.conflicts.push(other), ..argument }
}

/// `argument` with one more argument that must be used beside it.
pub open spec fn with_need(argument: ArgumentView, other: Seq<char>) -> ArgumentView {
    ArgumentView { needs: argument.needs.push(other), ..argument }
}

/// `argument` as one that must be used.
pub open spec fn as_required(argument: ArgumentView) -> ArgumentView {
    ArgumentView { required: true, ..argument }
}

// ---------------------------------------------------------------------
// Building a description
// ---------------------------------------------------------------------

/// Calls `clap::Command::new`: a command of that name, which holds no
/// argument and says nothing of itself.
#[verifier::external_body]
fn command(name: &'static str) -> (command: clap::Command)
    ensures
        command_arguments(command) == Seq::<ArgumentView>::empty(),
        command_heading(command) == (CommandHeading { name: name@, about: None, version: None }),
{
    clap::Command::new(name)
}

/// Calls `clap::Command::about`, which sets what the command says of
/// itself and leaves the rest as it is.
#[verifier::external_body]
fn about(command: clap::Command, text: &'static str) -> (described: clap::Command)
    ensures
        command_arguments(described) == command_arguments(command),
        command_heading(described) == (CommandHeading {
            about: Some(text@),
            ..command_heading(command)
        }),
{
    command.about(text)
}

/// Calls `clap::Command::version`, which sets what the command says of its
/// version and leaves the rest as it is.
#[verifier::external_body]
fn version(command: clap::Command, text: &'static str) -> (versioned: clap::Command)
    ensures
        command_arguments(versioned) == command_arguments(command),
        command_heading(versioned) == (CommandHeading {
            version: Some(text@),
            ..command_heading(command)
        }),
{
    command.version(text)
}

/// Calls `clap::Command::arg`, which adds the argument behind those that
/// the command holds.
#[verifier::external_body]
fn with_arg(command: clap::Command, arg: clap::Arg) -> (extended: clap::Command)
    ensures
        command_arguments(extended) == command_arguments(command).push(argument_view(arg)),
        command_heading(extended) == command_heading(command),
{
    command.arg(arg)
}

/// Calls `clap::Arg::new`: an argument of that name of which nothing else
/// is said.
#[verifier::external_body]
fn argument(id: &'static str) -> (arg: clap::Arg)
    ensures
        argument_view(arg) == new_argument(id@),
{
    clap::Arg::new(id)
}

/// Calls `clap::Arg::long`, which sets the long name.
#[verifier::external_body]
fn long(arg: clap::Arg, name: &'static str) -> (named: clap::Arg)
    ensures
        argument_view(named) == (ArgumentView { long: Some(name@), ..argument_view(arg) }),
{
    arg.long(name)
}

/// Calls `clap::Arg::help`, which sets the help text.
#[verifier::external_body]
fn help(arg: clap::Arg, text: &'static str) -> (explained: clap::Arg)
    ensures
        argument_view(explained) == (ArgumentView { help: Some(text@), ..argument_view(arg) }),
{
    arg.help(text)
}

/// Calls `clap::Arg::short`, which sets the letter. A hyphen is no letter.
#[verifier::external_body]
fn short(arg: clap::Arg, letter: char) -> (lettered: clap::Arg)
    requires
        letter != '-',
    ensures
        argument_view(lettered) == with_short(argument_view(arg), letter),
{
    arg.short(letter)
}

/// Calls `clap::Arg::action` with `ArgAction::SetTrue`, which sets the
/// action.
#[verifier::external_body]
fn switch(arg: clap::Arg) -> (switched: clap::Arg)
    ensures
        argument_view(switched) == as_switch(argument_view(arg)),
{
    arg.action(clap::ArgAction::SetTrue)
}

/// Calls `clap::Arg::num_args` with one or more, which sets the number of
/// values.
#[verifier::external_body]
fn one_or_more(arg: clap::Arg) -> (repeated: clap::Arg)
    ensures
        argument_view(repeated) == (ArgumentView { one_or_more: true, ..argument_view(arg) }),
{
    arg.num_args(1..)
}

/// Calls `clap::Arg::action` with `ArgAction::Append`, which sets the
/// action.
#[verifier::external_body]
fn appends(arg: clap::Arg) -> (appending: clap::Arg)
    ensures
        argument_view(appending) == (ArgumentView {
            action: Some(ArgumentAction::Append),
            ..argument_view(arg)
        }),
{
    arg.action(clap::ArgAction::Append)
}

/// Calls `clap::Arg::required` with `true`, which sets that the argument
/// must be used.
#[verifier::external_body]
fn required(arg: clap::Arg) -> (demanded: clap::Arg)
    ensures
        argument_view(demanded) == as_required(argument_view(arg)),
{
    arg.required(true)
}

/// Calls `clap::Arg::default_value`, which makes the value the one value
/// of the argument where it is not used.
#[verifier::external_body]
fn default_value(arg: clap::Arg, value: &'static str) -> (defaulted: clap::Arg)
    ensures
        argument_view(defaulted) == with_default(argument_view(arg), value@),
{
    arg.default_value(value)
}

/// Calls `clap::Arg::conflicts_with`, which adds the name to those that
/// may not be used beside the argument.
#[verifier::external_body]
fn conflicts_with(arg: clap::Arg, other: &'static str) -> (exclusive: clap::Arg)
    ensures
        argument_view(exclusive) == with_conflict(argument_view(arg), other@),
{
    arg.conflicts_with(other)
}

/// Calls `clap::Arg::requires`, which adds the name to those that must be
/// used beside the argument.
#[verifier::external_body]
fn needs(arg: clap::Arg, other: &'static str) -> (dependent: clap::Arg)
    ensures
        argument_view(dependent) == with_need(argument_view(arg), other@),
{
    arg.requires(other)
}

/// Calls `clap::Arg::value_parser` with the parser that `clap` has for
/// `u32`, which sets the reader.
#[verifier::external_body]
fn reads_u32(arg: clap::Arg) -> (reading: clap::Arg)
    ensures
        argument_view(reading) == with_reader(argument_view(arg), ValueReader::U32),
{
    arg.value_parser(u32::value_parser())
}

/// Calls `clap::Arg::value_parser` with the parser that `clap` has for
/// `u16`, which sets the reader.
#[verifier::external_body]
fn reads_u16(arg: clap::Arg) -> (reading: clap::Arg)
    ensures
        argument_view(reading) == with_reader(argument_view(arg), ValueReader::U16),
{
    arg.value_parser(u16::value_parser())
}

/// Calls `clap::Arg::value_parser` with `clap_num::maybe_hex`, which reads
/// a number in decimal, or in hexadecimal behind `0x`; the call sets the
/// reader.
#[verifier::external_body]
fn reads_hex_u32(arg: clap::Arg) -> (reading: clap::Arg)
    ensures
        argument_view(reading) == with_reader(argument_view(arg), ValueReader::HexU32),
{
    arg.value_parser(clap_num::maybe_hex::<u32>)
}

/// Calls `clap::Arg::value_parser` with the parser that `clap` has for
/// `String`, which sets the reader.
#[verifier::external_body]
fn reads_text(arg: clap::Arg) -> (reading: clap::Arg)
    ensures
        argument_view(reading) == with_reader(argument_view(arg), ValueReader::Text),
{
    arg.value_parser(String::value_parser())
}

/// Calls `clap::Arg::value_parser` with `parse_perms`, which sets the
/// reader.
#[verifier::external_body]
fn reads_permission(arg: clap::Arg) -> (reading: clap::Arg)
    ensures
        argument_view(reading) == with_reader(argument_view(arg), ValueReader::Permission),
{
    arg.value_parser(|text: &str| parse_perms(text).map_err(|error| error.message(text)))
}

/// Calls `clap::Arg::value_parser` with `ElfFile::from_text`, which sets
/// the reader.
#[verifier::external_body]
fn reads_elf_file(arg: clap::Arg) -> (reading: clap::Arg)
    ensures
        argument_view(reading) == with_reader(argument_view(arg), ValueReader::ElfFile),
{
    arg.value_parser(|text: &str| Ok::<ElfFile, String>(ElfFile::from_text(text)))
}

/// Calls `clap::Command::try_get_matches_from`. An error is handed on as
/// what `render`, `use_stderr` and `exit_code` say of it. Nothing is
/// claimed of the result.
#[verifier::external_body]
fn get_matches(command: clap::Command, args: Vec<String>) -> Result<clap::ArgMatches, CliError> {
    command.try_get_matches_from(args).map_err(
        |error|
            CliError {
                message: error.render().to_string(),
                use_stderr: error.use_stderr(),
                exit_code: error.exit_code(),
            },
    )
}

// ---------------------------------------------------------------------
// Reading what was matched
// ---------------------------------------------------------------------

/// Calls `clap::ArgMatches::try_get_one` for a switch; `None` where the
/// call gives none. Nothing is claimed of the value but that the same
/// matches and name give the same value.
#[verifier::external_body]
fn flag(matches: &clap::ArgMatches, id: &str) -> (value: Option<bool>)
    ensures
        value == matched_flag(*matches, id@),
{
    matches.try_get_one::<bool>(id).ok().flatten().cloned()
}

/// Calls `clap::ArgMatches::try_get_one` for a 32-bit number; `None` where
/// the call gives none. Nothing is claimed of the value but that the same
/// matches and name give the same value.
#[verifier::external_body]
fn number(matches: &clap::ArgMatches, id: &str) -> (value: Option<u32>)
    ensures
        value == matched_u32(*matches, id@),
{
    matches.try_get_one::<u32>(id).ok().flatten().cloned()
}

/// Calls `clap::ArgMatches::try_get_one` for a 16-bit number; `None` where
/// the call gives none. Nothing is claimed of the value but that the same
/// matches and name give the same value.
#[verifier::external_body]
fn small_number(matches: &clap::ArgMatches, id: &str) -> (value: Option<u16>)
    ensures
        value == matched_u16(*matches, id@),
{
    matches.try_get_one::<u16>(id).ok().flatten().cloned()
}

/// Calls `clap::ArgMatches::try_get_one` for a text; `None` where the call
/// gives none. Nothing is claimed of the value but that the same matches
/// and name give the same value.
#[verifier::external_body]
fn text(matches: &clap::ArgMatches, id: &str) -> (value: Option<String>)
    ensures
        text_view(value) == matched_text(*matches, id@),
{
    matches.try_get_one::<String>(id).ok().flatten().cloned()
}

/// Calls `clap::ArgMatches::try_get_many` for 32-bit numbers; `None` where
/// the call gives none. Nothing is claimed of the values but that the same
/// matches and name give the same values.
#[verifier::external_body]
fn numbers(matches: &clap::ArgMatches, id: &str) -> (values: Option<Vec<u32>>)
    ensures
        numbers_view(values) == matched_numbers(*matches, id@),
{
    Some(matches.try_get_many::<u32>(id).ok().flatten()?.cloned().collect())
}

/// Calls `clap::ArgMatches::try_get_many` for permissions; `None` where
/// the call gives none. Nothing is claimed of the values but that the same
/// matches and name give the same values.
#[verifier::external_body]
fn permissions(matches: &clap::ArgMatches, id: &str) -> (values: Option<Vec<(u32, u32)>>)
    ensures
        match values {
            Some(list) => matched_permissions(*matches, id@) == Some(list@),
            None => matched_permissions(*matches, id@).is_none(),
        },
{
    Some(matches.try_get_many::<(u32, u32)>(id).ok().flatten()?.cloned().collect())
}

/// Calls `clap::ArgMatches::try_get_many` for image files; `None` where
/// the call gives none. Nothing is claimed of the values but that the same
/// matches and name give the same values.
#[verifier::external_body]
fn files(matches: &clap::ArgMatches, id: &str) -> (values: Option<Vec<ElfFile>>)
    ensures
        match values {
            Some(list) => matched_files(*matches, id@) == Some(files_view(list@)),
            None => matched_files(*matches, id@).is_none(),
        },
{
    Some(matches.try_get_many::<ElfFile>(id).ok().flatten()?.cloned().collect())
}

// ---------------------------------------------------------------------
// The arguments of this command line
// ---------------------------------------------------------------------

/// An option that is given by its long name.
fn option(id: &'static str, name: &'static str, text: &'static str) -> (arg: clap::Arg)
    ensures
        argument_view(arg) == spec_option(id@, name@, text@),
{
    help(long(argument(id), name), text)
}

/// An argument that is given by its place.
fn positional(id: &'static str, text: &'static str) -> (arg: clap::Arg)
    ensures
        argument_view(arg) == spec_positional(id@, text@),
{
    help(argument(id), text)
}

/// An argument that takes a list of one value or more.
fn list(arg: clap::Arg) -> (listed: clap::Arg)
    ensures
        argument_view(listed) == as_list(argument_view(arg)),
{
    appends(one_or_more(arg))
}

/// The switches: whether all is to be said, whether the bundle is to come
/// out the same every time, whether the application is disabled, and which
/// digests are added.
pub open spec fn switches() -> Seq<ArgumentView> {
    seq![
        as_switch(with_short(spec_option("verbose"@, "verbose"@, "Be verbose"@), 'v')),
        as_switch(
            spec_option(
                "deterministic"@,
                "deterministic"@,
                "Produce a deterministic TAB file"@,
            ),
        ),
        as_switch(
            spec_option("disabled"@, "disable"@, "Mark the app as disabled in the TBF flags"@),
        ),
        as_switch(
            spec_option("sha256-add"@, "sha256"@, "Add a SHA256 hash credential to each TBF"@),
        ),
        as_switch(
            spec_option("sha384-add"@, "sha384"@, "Add a SHA384 hash credential to each TBF"@),
        ),
        as_switch(
            spec_option("sha512-add"@, "sha512"@, "Add a SHA512 hash credential to each TBF"@),
        ),
    ]
}

/// The switches of the command line.
fn with_switches(command: clap::Command) -> (extended: clap::Command)
    ensures
        command_arguments(extended) == command_arguments(command) + switches(),
        command_heading(extended) == command_heading(command),
{
    let ghost before = command_arguments(command);
    let command = with_arg(command, switch(short(option("verbose", "verbose", "Be verbose"), 'v')));
    let command = with_arg(
        command,
        switch(option("deterministic", "deterministic", "Produce a deterministic TAB file")),
    );
    let command = with_arg(
        command,
        switch(option("disabled", "disable", "Mark the app as disabled in the TBF flags")),
    );
    let command = with_arg(
        command,
        switch(option("sha256-add", "sha256", "Add a SHA256 hash credential to each TBF")),
    );
    let command = with_arg(
        command,
        switch(option("sha384-add", "sha384", "Add a SHA384 hash credential to each TBF")),
    );
    let command = with_arg(
        command,
        switch(option("sha512-add", "sha512", "Add a SHA512 hash credential to each TBF")),
    );
    assert(command_arguments(command) =~= before + switches());
    command
}

/// The options that size the application: its version, the RAM that it
/// needs at least, which may not be given beside the stack and the heaps,
/// the stack, the two heaps, the protected region and the footers.
pub open spec fn sizes() -> Seq<ArgumentView> {
    seq![
        with_default(
            with_reader(
                spec_option("app_version"@, "app-version"@, "Set the version number"@),
                ValueReader::U32,
            ),
            "0"@,
        ),
        with_conflict(
            with_conflict(
                with_conflict(
                    with_reader(
                        spec_option("min-ram-size"@, "minimum-ram-size"@, "in bytes"@),
                        ValueReader::U32,
                    ),
                    "stack-size"@,
                ),
                "heap-size"@,
            ),
            "kernel-heap-size"@,
        ),
        with_reader(spec_option("stack-size"@, "stack"@, "in bytes"@), ValueReader::U32),
        with_default(
            with_reader(spec_option("heap-size"@, "app-heap"@, "in bytes"@), ValueReader::U32),
            "1024"@,
        ),
        with_default(
            with_reader(
                spec_option("kernel-heap-size"@, "kernel-heap"@, "in bytes"@),
                ValueReader::U32,
            ),
            "1024"@,
        ),
        with_reader(
            spec_option(
                "protected-region-size"@,
                "protected-region-size"@,
                "Size of the protected region (including headers)"@,
            ),
            ValueReader::U32,
        ),
        with_default(
            with_reader(
                spec_option(
                    "min-footer-size"@,
                    "minimum-footer-size"@,
                    "Minimum number of bytes to reserve space for in the footer"@,
                ),
                ValueReader::U32,
            ),
            "0"@,
        ),
    ]
}

/// The options that size the application.
fn with_sizes(command: clap::Command) -> (extended: clap::Command)
    ensures
        command_arguments(extended) == command_arguments(command) + sizes(),
        command_heading(extended) == command_heading(command),
{
    let ghost before = command_arguments(command);
    let command = with_arg(
        command,
        default_value(reads_u32(option("app_version", "app-version", "Set the version number")), "0"),
    );
    let command = with_arg(
        command,
        conflicts_with(
            conflicts_with(
                conflicts_with(
                    reads_u32(option("min-ram-size", "minimum-ram-size", "in bytes")),
                    "stack-size",
                ),
                "heap-size",
            ),
            "kernel-heap-size",
        ),
    );
    let command = with_arg(command, reads_u32(option("stack-size", "stack", "in bytes")));
    let command = with_arg(
        command,
        default_value(reads_u32(option("heap-size", "app-heap", "in bytes")), "1024"),
    );
    let command = with_arg(
        command,
        default_value(reads_u32(option("kernel-heap-size", "kernel-heap", "in bytes")), "1024"),
    );
    let command = with_arg(
        command,
        reads_u32(
            option(
                "protected-region-size",
                "protected-region-size",
                "Size of the protected region (including headers)",
            ),
        ),
    );
    let command = with_arg(
        command,
        default_value(
            reads_u32(
                option(
                    "min-footer-size",
                    "minimum-footer-size",
                    "Minimum number of bytes to reserve space for in the footer",
                ),
            ),
            "0",
        ),
    );
    assert(command_arguments(command) =~= before + sizes());
    command
}

/// The options that name files and the application: the bundle to write,
/// the package, the image files, of which one at least must be given, the
/// boards, and the two keys.
pub open spec fn names() -> Seq<ArgumentView> {
    seq![
        with_default(
            with_reader(
                with_short(spec_option("filename"@, "output-file"@, "output file name"@), 'o'),
                ValueReader::Text,
            ),
            "TockApp.tab"@,
        ),
        with_reader(
            with_short(spec_option("pkg-name"@, "package-name"@, "package name"@), 'n'),
            ValueReader::Text,
        ),
        as_required(
            as_list(
                with_reader(
                    spec_positional("elf[,architecture]"@, "application file(s) to package"@),
                    ValueReader::ElfFile,
                ),
            ),
        ),
        with_reader(
            spec_option(
                "supported-boards"@,
                "supported-boards"@,
                "comma separated list of boards this app is compatible with"@,
            ),
            ValueReader::Text,
        ),
        with_reader(
            spec_option(
                "rsa4096-private-key"@,
                "rsa4096-private"@,
                "Add an 4096-bit RSA signature credential using this private key"@,
            ),
            ValueReader::Text,
        ),
        with_reader(
            spec_option(
                "rsa4096-public-key"@,
                "rsa4096-public"@,
                "Add an 4096-bit RSA signature credential containing this public key"@,
            ),
            ValueReader::Text,
        ),
    ]
}

/// The options that name files and the application.
fn with_names(command: clap::Command) -> (extended: clap::Command)
    ensures
        command_arguments(extended) == command_arguments(command) + names(),
        command_heading(extended) == command_heading(command),
{
    let ghost before = command_arguments(command);
    let command = with_arg(
        command,
        default_value(
            reads_text(short(option("filename", "output-file", "output file name"), 'o')),
            "TockApp.tab",
        ),
    );
    let command = with_arg(
        command,
        reads_text(short(option("pkg-name", "package-name", "package name"), 'n')),
    );
    let command = with_arg(
        command,
        required(
            list(reads_elf_file(positional("elf[,architecture]", "application file(s) to package"))),
        ),
    );
    let command = with_arg(
        command,
        reads_text(
            option(
                "supported-boards",
                "supported-boards",
                "comma separated list of boards this app is compatible with",
            ),
        ),
    );
    let command = with_arg(
        command,
        reads_text(
            option(
                "rsa4096-private-key",
                "rsa4096-private",
                "Add an 4096-bit RSA signature credential using this private key",
            ),
        ),
    );
    let command = with_arg(
        command,
        reads_text(
            option(
                "rsa4096-public-key",
                "rsa4096-public",
                "Add an 4096-bit RSA signature credential containing this public key",
            ),
        ),
    );
    assert(command_arguments(command) =~= before + names());
    command
}

/// The options that say what the application may do and what it needs:
/// its permissions, its storage identifiers, its short identifier, and the
/// kernel version, of which the minor part may only be given beside the
/// major part.
pub open spec fn rights() -> Seq<ArgumentView> {
    seq![
        as_list(
            with_reader(
                spec_option(
                    "permissions"@,
                    "permissions"@,
                    "A list of driver numbers and allowed commands"@,
                ),
                ValueReader::Permission,
            ),
        ),
        with_reader(
            spec_option("write_id"@, "write_id"@, "A storage ID used for writing data"@),
            ValueReader::HexU32,
        ),
        as_list(
            with_reader(
                spec_option(
                    "read_ids"@,
                    "read_ids"@,
                    "Storage IDs that this app is allowed to read"@,
                ),
                ValueReader::HexU32,
            ),
        ),
        as_list(
            with_reader(
                spec_option(
                    "access_ids"@,
                    "access_ids"@,
                    "Storage IDs that this app is allowed to write"@,
                ),
                ValueReader::HexU32,
            ),
        ),
        with_reader(
            spec_option("short-id"@, "short-id"@, "ShortId to request in the app's header"@),
            ValueReader::HexU32,
        ),
        with_reader(
            spec_option(
                "kernel-major-version"@,
                "kernel-major"@,
                "The kernel version that the app requires"@,
            ),
            ValueReader::U16,
        ),
        with_need(
            with_reader(
                spec_option(
                    "kernel-minor-version"@,
                    "kernel-minor"@,
                    "The minimum kernel minor version that the app requires"@,
                ),
                ValueReader::U16,
            ),
            "kernel-major-version"@,
        ),
    ]
}

/// The options that say what the application may do and what it needs.
fn with_rights(command: clap::Command) -> (extended: clap::Command)
    ensures
        command_arguments(extended) == command_arguments(command) + rights(),
        command_heading(extended) == command_heading(command),
{
    let ghost before = command_arguments(command);
    let command = with_arg(
        command,
        list(
            reads_permission(
                option(
                    "permissions",
                    "permissions",
                    "A list of driver numbers and allowed commands",
                ),
            ),
        ),
    );
    let command = with_arg(
        command,
        reads_hex_u32(option("write_id", "write_id", "A storage ID used for writing data")),
    );
    let command = with_arg(
        command,
        list(
            reads_hex_u32(
                option("read_ids", "read_ids", "Storage IDs that this app is allowed to read"),
            ),
        ),
    );
    let command = with_arg(
        command,
        list(
            reads_hex_u32(
                option("access_ids", "access_ids", "Storage IDs that this app is allowed to write"),
            ),
        ),
    );
    let command = with_arg(
        command,
        reads_hex_u32(option("short-id", "short-id", "ShortId to request in the app's header")),
    );
    let command = with_arg(
        command,
        reads_u16(
            option(
                "kernel-major-version",
                "kernel-major",
                "The kernel version that the app requires",
            ),
        ),
    );
    let command = with_arg(
        command,
        needs(
            reads_u16(
                option(
                    "kernel-minor-version",
                    "kernel-minor",
                    "The minimum kernel minor version that the app requires",
                ),
            ),
            "kernel-major-version",
        ),
    );
    assert(command_arguments(command) =~= before + rights());
    command
}

/// The heading of this command line.
pub open spec fn heading() -> CommandHeading {
    CommandHeading {
        name: "elf2tab"@,
        about: Some(
            "Convert Tock userland apps from .elf files to Tock Application Bundles (TABs or .tab files)."@,
        ),
        version: Some("0.1.0"@),
    }
}

/// The description of this command line: its heading, and its arguments
/// in the order in which they are told to the user.
pub fn command_line() -> (command: clap::Command)
    ensures
        command_heading(command) == heading(),
        command_arguments(command) == switches() + sizes() + names() + rights(),
{
    let command = version(
        about(
            command("elf2tab"),
            "Convert Tock userland apps from .elf files to Tock Application Bundles (TABs or .tab files).",
        ),
        "0.1.0",
    );
    let command = with_rights(with_names(with_sizes(with_switches(command))));
    assert(command_arguments(command) =~= switches() + sizes() + names() + rights());
    command
}

// ---------------------------------------------------------------------
// The options as values
// ---------------------------------------------------------------------

/// An image file to convert as a mathematical value.
pub struct ElfFileView {
    pub path: Seq<char>,
    pub architecture: Option<Seq<char>>,
}

/// A text that may be missing, as a mathematical value.
pub open spec fn text_view(text: Option<String>) -> Option<Seq<char>> {
    match text {
        Some(text) => Some(text@),
        None => None,
    }
}

/// Numbers that may be missing, as a mathematical value.
pub open spec fn numbers_view(numbers: Option<Vec<u32>>) -> Option<Seq<u32>> {
    match numbers {
        Some(numbers) => Some(numbers@),
        None => None,
    }
}

impl View for ElfFile {
    type V = ElfFileView;

    open spec fn view(&self) -> ElfFileView {
        ElfFileView { path: self.path@, architecture: text_view(self.architecture) }
    }
}

/// Image files as mathematical values.
pub open spec fn files_view(files: Seq<ElfFile>) -> Seq<ElfFileView> {
    Seq::new(files.len(), |i: int| files[i]@)
}

/// The options as a mathematical value.
pub struct OptView {
    pub verbose: bool,
    pub deterministic: bool,
    pub disabled: bool,
    pub app_version: u32,
    pub minimum_stack_size: Option<u32>,
    pub output: Seq<char>,
    pub package_name: Option<Seq<char>>,
    pub stack_size: Option<u32>,
    pub app_heap_size: u32,
    pub kernel_heap_size: u32,
    pub input: Seq<ElfFileView>,
    pub protected_region_size: Option<u32>,
    pub permissions: Seq<(u32, u32)>,
    pub write_id: Option<u32>,
    pub read_ids: Option<Seq<u32>>,
    pub access_ids: Option<Seq<u32>>,
    pub short_id: Option<u32>,
    pub kernel_major: Option<u16>,
    pub kernel_minor: Option<u16>,
    pub supported_boards: Option<Seq<char>>,
    pub minimum_footer_size: u32,
    pub sha256_enable: bool,
    pub sha384_enable: bool,
    pub sha512_enable: bool,
    pub rsa4096_private_key: Option<Seq<char>>,
    pub rsa4096_public_key: Option<Seq<char>>,
}

impl View for Opt {
    type V = OptView;

    open spec fn view(&self) -> OptView {
        OptView {
            verbose: self.verbose,
            deterministic: self.deterministic,
            disabled: self.disabled,
            app_version: self.app_version,
            minimum_stack_size: self.minimum_stack_size,
            output: self.output@,
            package_name: text_view(self.package_name),
            stack_size: self.stack_size,
            app_heap_size: self.app_heap_size,
            kernel_heap_size: self.kernel_heap_size,
            input: files_view(self.input@),
            protected_region_size: self.protected_region_size,
            permissions: self.permissions@,
            write_id: self.write_id,
            read_ids: numbers_view(self.read_ids),
            access_ids: numbers_view(self.access_ids),
            short_id: self.short_id,
            kernel_major: self.kernel_major,
            kernel_minor: self.kernel_minor,
            supported_boards: text_view(self.supported_boards),
            minimum_footer_size: self.minimum_footer_size,
            sha256_enable: self.sha256_enable,
            sha384_enable: self.sha384_enable,
            sha512_enable: self.sha512_enable,
            rsa4096_private_key: text_view(self.rsa4096_private_key),
            rsa4096_public_key: text_view(self.rsa4096_public_key),
        }
    }
}

/// A value, or `fallback` where there is none.
pub open spec fn value_or<T>(value: Option<T>, fallback: T) -> T {
    match value {
        Some(value) => value,
        None => fallback,
    }
}

/// A value, or `fallback` where there is none.
fn or_value<T>(value: Option<T>, fallback: T) -> (chosen: T)
    ensures
        chosen == value_or(value, fallback),
{
    match value {
        Some(value) => value,
        None => fallback,
    }
}

impl Opt {
    /// The kernel version that the application requires: the major version
    /// that is given, with the minor version, or 0 where none is given.
    pub open spec fn spec_kernel_version(&self) -> Option<(u16, u16)> {
        match self.kernel_major {
            Some(major) => Some(
                (
                    major,
                    match self.kernel_minor {
                        Some(minor) => minor,
                        None => 0,
                    },
                ),
            ),
            None => None,
        }
    }

    /// The kernel version that the application requires.
    pub fn kernel_version(&self) -> (version: Option<(u16, u16)>)
        ensures
            version == self.spec_kernel_version(),
    {
        match self.kernel_major {
            Some(major) => Some((major, or_value(self.kernel_minor, 0))),
            None => None,
        }
    }

    /// The options that matches stand for. Each option is what the matches
    /// hold under the name of its argument. A switch that the matches do
    /// not hold is off; the version and the minimum footer size are then 0,
    /// each heap 1024 bytes, the bundle `TockApp.tab`, and the lists of
    /// image files and of permissions empty.
    pub open spec fn spec_from_matches(matches: clap::ArgMatches) -> OptView {
        OptView {
            verbose: value_or(matched_flag(matches, "verbose"@), false),
            deterministic: value_or(matched_flag(matches, "deterministic"@), false),
            disabled: value_or(matched_flag(matches, "disabled"@), false),
            app_version: value_or(matched_u32(matches, "app_version"@), 0),
            minimum_stack_size: matched_u32(matches, "min-ram-size"@),
            output: value_or(matched_text(matches, "filename"@), "TockApp.tab"@),
            package_name: matched_text(matches, "pkg-name"@),
            stack_size: matched_u32(matches, "stack-size"@),
            app_heap_size: value_or(matched_u32(matches, "heap-size"@), 1024),
            kernel_heap_size: value_or(matched_u32(matches, "kernel-heap-size"@), 1024),
            input: value_or(matched_files(matches, "elf[,architecture]"@), Seq::empty()),
            protected_region_size: matched_u32(matches, "protected-region-size"@),
            permissions: value_or(matched_permissions(matches, "permissions"@), Seq::empty()),
            write_id: matched_u32(matches, "write_id"@),
            read_ids: matched_numbers(matches, "read_ids"@),
            access_ids: matched_numbers(matches, "access_ids"@),
            short_id: matched_u32(matches, "short-id"@),
            kernel_major: matched_u16(matches, "kernel-major-version"@),
            kernel_minor: matched_u16(matches, "kernel-minor-version"@),
            supported_boards: matched_text(matches, "supported-boards"@),
            minimum_footer_size: value_or(matched_u32(matches, "min-footer-size"@), 0),
            sha256_enable: value_or(matched_flag(matches, "sha256-add"@), false),
            sha384_enable: value_or(matched_flag(matches, "sha384-add"@), false),
            sha512_enable: value_or(matched_flag(matches, "sha512-add"@), false),
            rsa4096_private_key: matched_text(matches, "rsa4096-private-key"@),
            rsa4096_public_key: matched_text(matches, "rsa4096-public-key"@),
        }
    }

    /// Takes the options out of what the arguments of a call gave.
    pub fn from_matches(matches: &clap::ArgMatches) -> (options: Opt)
        ensures
            options@ == Self::spec_from_matches(*matches),
    {
        let output: String = or_value(text(matches, "filename"), String::from_str("TockApp.tab"));
        let input: Vec<ElfFile> = or_value(files(matches, "elf[,architecture]"), Vec::new());
        assert(files_view(input@) =~= value_or(
            matched_files(*matches, "elf[,architecture]"@),
            Seq::empty(),
        ));
        let permissions: Vec<(u32, u32)> = or_value(
            permissions(matches, "permissions"),
            Vec::new(),
        );
        assert(permissions@ =~= value_or(
            matched_permissions(*matches, "permissions"@),
            Seq::empty(),
        ));
        Opt {
            verbose: or_value(flag(matches, "verbose"), false),
            deterministic: or_value(flag(matches, "deterministic"), false),
            disabled: or_value(flag(matches, "disabled"), false),
            app_version: or_value(number(matches, "app_version"), 0),
            minimum_stack_size: number(matches, "min-ram-size"),
            output,
            package_name: text(matches, "pkg-name"),
            stack_size: number(matches, "stack-size"),
            app_heap_size: or_value(number(matches, "heap-size"), 1024),
            kernel_heap_size: or_value(number(matches, "kernel-heap-size"), 1024),
            input,
            protected_region_size: number(matches, "protected-region-size"),
            permissions,
            write_id: number(matches, "write_id"),
            read_ids: numbers(matches, "read_ids"),
            access_ids: numbers(matches, "access_ids"),
            short_id: number(matches, "short-id"),
            kernel_major: small_number(matches, "kernel-major-version"),
            kernel_minor: small_number(matches, "kernel-minor-version"),
            supported_boards: text(matches, "supported-boards"),
            minimum_footer_size: or_value(number(matches, "min-footer-size"), 0),
            sha256_enable: or_value(flag(matches, "sha256-add"), false),
            sha384_enable: or_value(flag(matches, "sha384-add"), false),
            sha512_enable: or_value(flag(matches, "sha512-add"), false),
            rsa4096_private_key: text(matches, "rsa4096-private-key"),
            rsa4096_public_key: text(matches, "rsa4096-public-key"),
        }
    }

    /// Reads the options from the arguments of a call, the name of the
    /// program first.
    ///
    /// The arguments are matched against the description of this command
    /// line. Where they match, the options are those that the matches stand
    /// for; where they do not, or where they ask for help or for the
    /// version, what is to be shown comes back.
    pub fn try_parse_from(args: Vec<String>) -> (options: Result<Opt, CliError>)
        ensures
            options matches Ok(read) ==> exists|matches: clap::ArgMatches|
                read@ == #[trigger] Self::spec_from_matches(matches),
    {
        let matches = get_matches(command_line(), args)?;
        let read = Self::from_matches(&matches);
        assert(read@ == Self::spec_from_matches(matches));
        Ok(read)
    }
}

} // verus!
