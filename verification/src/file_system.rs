//! File names and paths: the characters a file name may hold, and path
//! separators.

use vstd::prelude::*;
use vstd::string::StrSliceExecFns;
use vstd::string::StringExecFns;
use crate::text::chars_of;
use crate::misc::Oses;
use crate::ErrorModel;
use crate::GenerationError;
use crate::GenerationWarnings;
use crate::Warning;
use crate::WarningModel;

verus! {

/// The nine characters that may not stand in a file name on Unix or Windows:
/// `/ \ < > : " | ? *`.
pub open spec fn is_illegal_char(c: char) -> bool {
    c == '/' || c == '\\' || c == '<' || c == '>' || c == ':' || c == '"' || c == '|' || c == '?'
        || c == '*'
}

/// The character that takes the place of an illegal one.
pub open spec fn substitute_char() -> char {
    ' '
}

/// `s` with every illegal character replaced by the substitute; all other
/// characters stay where they are.
pub open spec fn without_illegal_chars(s: Seq<char>) -> Seq<char> {
    Seq::new(
        s.len(),
        |i: int|
            if is_illegal_char(s[i]) {
                substitute_char()
            } else {
                s[i]
            },
    )
}

/// No character of `s` is illegal in a file name.
pub open spec fn is_file_name_safe(s: Seq<char>) -> bool {
    forall|i: int| 0 <= i < s.len() ==> !is_illegal_char(#[trigger] s[i])
}

/// A path separator of either convention.
pub open spec fn is_separator(c: char) -> bool {
    c == '/' || c == '\\'
}

/// `path` with every separator, of either convention, replaced by
/// `separator`.
pub open spec fn with_separator(path: Seq<char>, separator: char) -> Seq<char> {
    Seq::new(
        path.len(),
        |i: int|
            if is_separator(path[i]) {
                separator
            } else {
                path[i]
            },
    )
}

/// The separator of paths on a system: the backslash on Windows, the slash
/// on every other system.
pub open spec fn separator_of(os: Oses) -> char {
    match os {
        Oses::Windows => '\\',
        Oses::Linux => '/',
        Oses::MacOs => '/',
        Oses::OtherUnknownOs => '/',
    }
}

/// Sanitizing a title that holds no illegal character changes nothing.
pub proof fn lemma_safe_name_unchanged(s: Seq<char>)
    requires
        is_file_name_safe(s),
    ensures
        without_illegal_chars(s) == s,
{
    assert(without_illegal_chars(s) =~= s);
}

/// Sanitizing twice gives what sanitizing once gives, and the result holds
/// no illegal character.
pub proof fn lemma_sanitizing_is_idempotent(s: Seq<char>)
    ensures
        is_file_name_safe(without_illegal_chars(s)),
        without_illegal_chars(without_illegal_chars(s)) == without_illegal_chars(s),
{
    assert(without_illegal_chars(without_illegal_chars(s)) =~= without_illegal_chars(s));
}

/// Each of the nine illegal characters is replaced by the substitute
/// character, wherever it stands.
pub proof fn lemma_illegal_chars_are_substituted(s: Seq<char>, i: int)
    requires
        0 <= i < s.len(),
    ensures
        is_illegal_char('/'),
        is_illegal_char('\\'),
        is_illegal_char('<'),
        is_illegal_char('>'),
        is_illegal_char(':'),
        is_illegal_char('"'),
        is_illegal_char('|'),
        is_illegal_char('?'),
        is_illegal_char('*'),
        !is_illegal_char(substitute_char()),
        is_illegal_char(s[i]) ==> without_illegal_chars(s)[i] == substitute_char(),
        !is_illegal_char(s[i]) ==> without_illegal_chars(s)[i] == s[i],
{
}

/// Whether `c` may not stand in a file name.
fn is_illegal(c: char) -> (r: bool)
    ensures
        r == is_illegal_char(c),
{
    c == '/' || c == '\\' || c == '<' || c == '>' || c == ':' || c == '"' || c == '|' || c == '?'
        || c == '*'
}

/// Remove chars that are illegal to be used in filenames on both unix & windows.
///
/// Each of them is replaced by a space, so the result is as long as the input.
pub fn remove_illegal_chars(string: String) -> (r: String)
    ensures
        r@ == without_illegal_chars(string@),
{
    let text = string.as_str();
    let chars = chars_of(text);
    let n = chars.len();
    let mut out = String::new();
    let mut run: usize = 0;
    let mut i: usize = 0;
    while i < n
        invariant
            run <= i <= n,
            n == chars@.len(),
            chars@ == text@,
            text@ == string@,
            out@ == without_illegal_chars(string@).take(run as int),
            forall|k: int| run <= k < i ==> !is_illegal_char(#[trigger] string@[k]),
        decreases n - i,
    {
        if is_illegal(chars[i]) {
            out.append(text.substring_char(run, i));
            out.append(" ");
            proof {
                reveal_strlit(" ");
                assert(out@ =~= without_illegal_chars(string@).take(i + 1));
            }
            run = i + 1;
        }
        i = i + 1;
    }
    out.append(text.substring_char(run, n));
    assert(out@ =~= without_illegal_chars(string@));
    out
}

/// Converts a given path to the style of the system `os`: every separator
/// of the other convention becomes the separator of that system, and
/// nothing else changes.
pub fn convert_path_to_os_specific(path: String, os: Oses) -> (r: String)
    ensures
        r@ == with_separator(path@, separator_of(os)),
{
    let separator = match os {
        Oses::Windows => "\\",
        Oses::Linux => "/",
        Oses::MacOs => "/",
        Oses::OtherUnknownOs => "/",
    };
    proof {
        reveal_strlit("\\");
        reveal_strlit("/");
        assert(separator@ =~= seq![separator_of(os)]);
    }
    let text = path.as_str();
    let chars = chars_of(text);
    let n = chars.len();
    let mut out = String::new();
    let mut run: usize = 0;
    let mut i: usize = 0;
    while i < n
        invariant
            run <= i <= n,
            n == chars@.len(),
            chars@ == text@,
            text@ == path@,
            separator@ == seq![separator_of(os)],
            out@ == with_separator(path@, separator_of(os)).take(run as int),
            forall|k: int| run <= k < i ==> !is_separator(#[trigger] path@[k]),
        decreases n - i,
    {
        if chars[i] == '/' || chars[i] == '\\' {
            out.append(text.substring_char(run, i));
            out.append(separator);
            proof {
                assert(out@ =~= with_separator(path@, separator_of(os)).take(i + 1));
            }
            run = i + 1;
        }
        i = i + 1;
    }
    out.append(text.substring_char(run, n));
    assert(out@ =~= with_separator(path@, separator_of(os)));
    out
}

/// The error for a file that could not be created: the file is never
/// overwritten, so a file that exists already is an error of its own.
pub fn file_creation_error(already_exists: bool, file_path: String, error: String) -> (r:
    GenerationError)
    ensures
        r@ == if already_exists {
            ErrorModel::FileExistsError { file_path: file_path@ }
        } else {
            ErrorModel::FileWriteError { file_path: file_path@, error: error@ }
        },
{
    if already_exists {
        GenerationError::FileExistsError { file_path }
    } else {
        GenerationError::FileWriteError { file_path, error }
    }
}

/// Where html2xhtml is found: the archive that holds it, and the program in
/// the archive.
pub struct Html2Xhtml {
    pub archive: String,
    pub program: String,
}

/// The archive and the program of html2xhtml for a system; `None` for a
/// system that it does not run on.
pub open spec fn html2xhtml_for(os: Oses) -> Option<(Seq<char>, Seq<char>)> {
    match os {
        Oses::Windows => Some(("html2xhtml-windows.zip"@, "html2xhtml.exe"@)),
        Oses::Linux => Some(("html2xhtml-linux.zip"@, "html2xhtml"@)),
        Oses::MacOs => None,
        Oses::OtherUnknownOs => None,
    }
}

/// Setup html2xhtml for the operating system `os`: says which archive is to
/// be unpacked into the temporary directory and which program in it is to
/// be run, or that the system is not supported.
pub fn setup_html2xhtml(os: Oses) -> (r: Result<Html2Xhtml, GenerationError>)
    ensures
        match html2xhtml_for(os) {
            Some(names) => r matches Ok(found) && found.archive@ == names.0 && found.program@
                == names.1,
            None => r matches Err(error) && error@ == (ErrorModel::OsUnsupportedError { os }),
        },
{
    match os {
        Oses::Windows => Ok(
            Html2Xhtml {
                archive: String::from_str("html2xhtml-windows.zip"),
                program: String::from_str("html2xhtml.exe"),
            },
        ),
        Oses::Linux => Ok(
            Html2Xhtml {
                archive: String::from_str("html2xhtml-linux.zip"),
                program: String::from_str("html2xhtml"),
            },
        ),
        Oses::MacOs => Err(GenerationError::OsUnsupportedError { os }),
        Oses::OtherUnknownOs => Err(GenerationError::OsUnsupportedError { os }),
    }
}

/// The message of the warning about a temporary directory that stays.
pub open spec fn temp_dir_message() -> Seq<char> {
    "Unable to close and delete temp directory"@
}

/// Takes the outcome of deleting the temporary directory at
/// `temp_directory_path`: a failure is a warning and stops nothing.
pub fn delete_temp_dir(
    temp_directory_path: String,
    outcome: Result<(), String>,
    warnings: &mut GenerationWarnings,
)
    ensures
        match outcome {
            Ok(_) => final(warnings)@ == old(warnings)@,
            Err(error) => final(warnings)@ == old(warnings)@.push(
                WarningModel::TempDirDeletionError {
                    warning_msg: temp_dir_message(),
                    temp_directory_path: temp_directory_path@,
                    error: error@,
                },
            ),
        },
{
    match outcome {
        Ok(_) => {},
        Err(error) => {
            warnings.add_warning(
                Warning::TempDirDeletionError {
                    warning_msg: String::from_str("Unable to close and delete temp directory"),
                    temp_directory_path,
                    error,
                },
            );
        },
    }
}

} // verus!
