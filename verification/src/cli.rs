//! The rule by which the program finds the files it reads from and writes to.

use vstd::prelude::*;
use vstd::string::StringExecFns;

verus! {

/// The name of the output file when the input file's name has no stem to go by.
pub const FALLBACK_OUTPUT: &'static str = "out.c";

/// What follows the stem of the input file in the name of the output file, when none is named.
pub const OUTPUT_SUFFIX: &'static str = ".c";

/// The stem of the file that `path` names, as `std::path::Path::file_stem` finds it: the name
/// of the file without its last extension, or nothing where the path names no file.
pub uninterp spec fn stem_of(path: Seq<char>) -> Option<Seq<char>>;

/// The stem of the file that `path` names, by `std::path::Path::file_stem`. The contract says
/// no more than that the result is what that function finds for this path.
#[verifier::external_body]
fn file_stem(path: &str) -> (stem: Option<String>)
    ensures
        stem is Some <==> stem_of(path@) is Some,
        stem is Some ==> stem->0@ == stem_of(path@)->0,
{
    match std::path::Path::new(path).file_stem() {
        Some(stem) => Some(stem.to_string_lossy().into_owned()),
        None => None,
    }
}

/// The output file that goes with the stem of an input file: the stem followed by `.c`, in the
/// working directory. Without a stem there is none.
pub fn default_output(stem: Option<String>) -> (output: Option<String>)
    ensures
        stem is Some ==> output is Some && output->0@ == stem->0@ + OUTPUT_SUFFIX@,
        stem is None ==> output is None,
{
    match stem {
        // Use the input file's stem and add the C extension.
        Some(stem) => {
            let mut output = stem;
            output.append(OUTPUT_SUFFIX);
            Some(output)
        },
        None => None,
    }
}

/// The output file: the one that was asked for, if any; else the one made from the stem of the
/// input file, if it has a stem; else the fallback.
pub fn choose_output(asked: Option<&str>, from_stem: Option<String>) -> (output: String)
    ensures
        asked is Some ==> output@ == asked->0@,
        asked is None && from_stem is Some ==> output@ == from_stem->0@,
        asked is None && from_stem is None ==> output@ == FALLBACK_OUTPUT@,
{
    match asked {
        Some(output) => output.to_owned(),
        None => match from_stem {
            Some(output) => output,
            // If everything else fails, default to the fallback.
            None => FALLBACK_OUTPUT.to_owned(),
        },
    }
}

/// Get the `(input_file, output_file)` from the input file and the output file that the command
/// line names.
///
/// The input file is the one named. The output file is the one named, if one is; if not, it is
/// the stem of the input file followed by `.c`, in the working directory, and `out.c` where the
/// input file has no stem.
pub fn get_arguments(input: &str, output: Option<&str>) -> (files: (String, String))
    ensures
        files.0@ == input@,
        output is Some ==> files.1@ == output->0@,
        output is None && stem_of(input@) is Some ==> files.1@ == stem_of(input@)->0
            + OUTPUT_SUFFIX@,
        output is None && stem_of(input@) is None ==> files.1@ == FALLBACK_OUTPUT@,
{
    let from_stem = match output {
        Some(_) => None,
        None => default_output(file_stem(input)),
    };
    (input.to_owned(), choose_output(output, from_stem))
}

} // verus!
