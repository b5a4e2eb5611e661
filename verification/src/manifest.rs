//! The text that describes a bundle of containers.

use vstd::prelude::*;
use vstd::string::StringExecFns;

verus! {

/// The character that stands for a digit.
pub open spec fn digit_char(digit: nat) -> char {
    if digit == 0 {
        '0'
    } else if digit == 1 {
        '1'
    } else if digit == 2 {
        '2'
    } else if digit == 3 {
        '3'
    } else if digit == 4 {
        '4'
    } else if digit == 5 {
        '5'
    } else if digit == 6 {
        '6'
    } else if digit == 7 {
        '7'
    } else if digit == 8 {
        '8'
    } else {
        '9'
    }
}

/// A number in decimal digits, without leading zeros.
pub open spec fn decimal(number: nat) -> Seq<char>
    decreases number,
{
    if number < 10 {
        seq![digit_char(number)]
    } else {
        decimal(number / 10) + seq![digit_char(number % 10)]
    }
}

/// The text of one digit.
fn digit_text(digit: u16) -> (text: &'static str)
    requires
        digit < 10,
    ensures
        text@ == seq![digit_char(digit as nat)],
{
    proof {
        reveal_strlit("0");
        reveal_strlit("1");
        reveal_strlit("2");
        reveal_strlit("3");
        reveal_strlit("4");
        reveal_strlit("5");
        reveal_strlit("6");
        reveal_strlit("7");
        reveal_strlit("8");
        reveal_strlit("9");
    }
    let text: &'static str = if digit == 0 {
        "0"
    } else if digit == 1 {
        "1"
    } else if digit == 2 {
        "2"
    } else if digit == 3 {
        "3"
    } else if digit == 4 {
        "4"
    } else if digit == 5 {
        "5"
    } else if digit == 6 {
        "6"
    } else if digit == 7 {
        "7"
    } else if digit == 8 {
        "8"
    } else {
        "9"
    };
    assert(text@ =~= seq![digit_char(digit as nat)]);
    text
}

/// Writes a number in decimal digits.
pub fn decimal_text(number: u16) -> (text: String)
    ensures
        text@ == decimal(number as nat),
    decreases number,
{
    if number < 10 {
        String::from_str(digit_text(number))
    } else {
        let mut text = decimal_text(number / 10);
        text.append(digit_text(number % 10));
        text
    }
}

/// The lines that every description holds: the version of the format, the
/// name of the package, and the boards that the bundle is for, which are
/// not said.
pub open spec fn metadata_head(package_name: Seq<char>) -> Seq<char> {
    "tab-version = 1\nname = \""@ + package_name + "\"\nonly-for-boards = \"\"\n"@
}

/// `text` with the line that says which kernel the application requires,
/// where it requires one.
pub open spec fn with_kernel_line(text: Seq<char>, kernel_version: Option<(u16, u16)>) -> Seq<
    char,
> {
    match kernel_version {
        Some((major, minor)) => text + "minimum-tock-kernel-version = \""@ + decimal(major as nat)
            + "."@ + decimal(minor as nat) + "\"\n"@,
        None => text,
    }
}

/// `text` with the line that says when the bundle was built, where that is
/// to be said.
pub open spec fn with_build_line(text: Seq<char>, build_date: Option<Seq<char>>) -> Seq<char> {
    match build_date {
        Some(date) => text + "build-date = "@ + date + "\n"@,
        None => text,
    }
}

/// The description of a bundle: the lines that every description holds,
/// the kernel version that the application requires, and the date on which
/// the bundle was built. A bundle that is to come out the same every time
/// has no build date.
pub open spec fn spec_metadata(
    package_name: Seq<char>,
    kernel_version: Option<(u16, u16)>,
    build_date: Option<Seq<char>>,
) -> Seq<char> {
    with_build_line(with_kernel_line(metadata_head(package_name), kernel_version), build_date)
}

/// Writes the description of a bundle.
pub fn metadata(
    package_name: &str,
    kernel_version: Option<(u16, u16)>,
    build_date: Option<&str>,
) -> (text: String)
    ensures
        text@ == spec_metadata(
            package_name@,
            kernel_version,
            match build_date {
                Some(date) => Some(date@),
                None => None,
            },
        ),
{
    let mut text = String::from_str("tab-version = 1\nname = \"");
    text.append(package_name);
    text.append("\"\nonly-for-boards = \"\"\n");
    if let Some((major, minor)) = kernel_version {
        text.append("minimum-tock-kernel-version = \"");
        text.append(decimal_text(major).as_str());
        text.append(".");
        text.append(decimal_text(minor).as_str());
        text.append("\"\n");
    }
    if let Some(date) = build_date {
        text.append("build-date = ");
        text.append(date);
        text.append("\n");
    }
    text
}

} // verus!
