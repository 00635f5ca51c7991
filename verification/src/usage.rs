//! The startup banner and the extended help text, as plain strings for the
//! command-line front end to display.

use vstd::prelude::*;

verus! {

/// The startup banner.
pub open spec fn banner_text() -> Seq<char> {
    "\n    M   M     A     K  K   EEEE\n    MM MM    A A    K K    E\n    M M M   AAAAA   KK     EEE\n    M   M  A     A  K K    E\n    M   M  A     A  K  K   EEEE\n\n    DDDD     A     TTTTT    A\n    D   D   A A      T     A A\n    D   D  AAAAA     T    AAAAA\n    D   D A     A    T   A     A\n    DDDD  A     A    T  A     A\n    Make data for testing, using fake data generator\n"@
}

/// The banner shown at program start.
pub fn show_banner() -> (s: String)
    ensures
        s@ == banner_text(),
{
    String::from_str(
        "\n    M   M     A     K  K   EEEE\n    MM MM    A A    K K    E\n    M M M   AAAAA   KK     EEE\n    M   M  A     A  K K    E\n    M   M  A     A  K  K   EEEE\n\n    DDDD     A     TTTTT    A\n    D   D   A A      T     A A\n    D   D  AAAAA     T    AAAAA\n    D   D A     A    T   A     A\n    DDDD  A     A    T  A     A\n    Make data for testing, using fake data generator\n",
    )
}

/// The extended help text.
pub open spec fn big_help() -> Seq<char> {
    "\tColumn types can be: int, float, word, name, phone\n\tRange for random numbers is a single number (e.g., 1000)\n\tcargo run -- --rows <number> --columns <types> --output <file> --myrange <range>\n\tExamples:\n\tcargo run -- --rows 1000 --columns int,float,word,name,phone --output output.csv --myrange 1000\n\tcargo run -- --rows 10 --columns int,int,int --output output.csv --myrange 10\n"@
}

/// The extended usage text shown for the extended-help flag.
pub fn big_help_text() -> (s: String)
    ensures
        s@ == big_help(),
{
    String::from_str(
        "\tColumn types can be: int, float, word, name, phone\n\tRange for random numbers is a single number (e.g., 1000)\n\tcargo run -- --rows <number> --columns <types> --output <file> --myrange <range>\n\tExamples:\n\tcargo run -- --rows 1000 --columns int,float,word,name,phone --output output.csv --myrange 1000\n\tcargo run -- --rows 10 --columns int,int,int --output output.csv --myrange 10\n",
    )
}

} // verus!
