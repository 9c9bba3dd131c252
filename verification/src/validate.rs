use vstd::prelude::*;
use vstd::string::StrSliceExecFns;

verus! {

/// Why an input file path was rejected.
#[derive(Clone, Copy, Debug, PartialEq, Eq, Structural)]
pub enum InputFileError {
    /// The path is absolute; only paths relative to the working directory
    /// are accepted.
    Absolute,
    /// The path does not refer to an existing regular file.
    NotAFile,
    /// The path contains a parent-directory traversal segment (`../`).
    Traversal,
}

/// True when the path is absolute (begins with `/`).
pub open spec fn is_absolute(p: Seq<char>) -> bool {
    p.len() > 0 && p[0] == '/'
}

/// True when a `../` segment begins at index `i`.
pub open spec fn traversal_at(p: Seq<char>, i: int) -> bool {
    p[i] == '.' && p[i + 1] == '.' && p[i + 2] == '/'
}

/// True when the path contains a `../` segment anywhere.
pub open spec fn has_traversal(p: Seq<char>) -> bool {
    exists|i: int| 0 <= i && i + 3 <= p.len() && traversal_at(p, i)
}

/// The verdict on one input path. `is_file` reports whether the path refers
/// to an existing regular file (a fact only the caller's filesystem can
/// supply). The rules apply in a fixed order: absolute first, existence
/// second, traversal last.
pub open spec fn input_file_check(p: Seq<char>, is_file: bool) -> Result<(), InputFileError> {
    if is_absolute(p) {
        Err(InputFileError::Absolute)
    } else if !is_file {
        Err(InputFileError::NotAFile)
    } else if has_traversal(p) {
        Err(InputFileError::Traversal)
    } else {
        Ok(())
    }
}

/// True when the character sequence holds a `../` segment.
fn contains_traversal(s: &str) -> (r: bool)
    ensures
        r == has_traversal(s@),
{
    let n = s.unicode_len();
    if n < 3 {
        return false;
    }
    let mut i: usize = 0;
    while i <= n - 3
        invariant
            n == s@.len(),
            3 <= n,
            i <= n - 2,
            forall|j: int| 0 <= j < i ==> !traversal_at(s@, j),
        decreases n - i,
    {
        if s.get_char(i) == '.' && s.get_char(i + 1) == '.' && s.get_char(i + 2) == '/' {
            assert(traversal_at(s@, i as int));
            return true;
        }
        i += 1;
    }
    false
}

/// Checks one input path against the validation rules, given whether it
/// refers to an existing regular file.
pub fn check_input_file(path: &str, is_file: bool) -> (r: Result<(), InputFileError>)
    ensures
        r == input_file_check(path@, is_file),
{
    if path.unicode_len() > 0 && path.get_char(0) == '/' {
        return Err(InputFileError::Absolute);
    }
    if !is_file {
        return Err(InputFileError::NotAFile);
    }
    if contains_traversal(path) {
        return Err(InputFileError::Traversal);
    }
    Ok(())
}

/// Checks a whole input list before any command is planned. `is_file[i]`
/// reports whether `paths[i]` refers to an existing regular file. Returns the
/// index of the first offending path together with the rule it violates;
/// every path before it passes all rules.
pub fn check_input_files(paths: &Vec<String>, is_file: &Vec<bool>) -> (r: Result<
    (),
    (usize, InputFileError),
>)
    requires
        paths@.len() == is_file@.len(),
    ensures
        r is Ok <==> (forall|i: int|
            0 <= i < paths@.len() ==> input_file_check(paths@[i]@, is_file@[i]) is Ok),
        r matches Err((i, e)) ==> {
            &&& (i as int) < paths@.len()
            &&& input_file_check(paths@[i as int]@, is_file@[i as int]) == Err::<
                (),
                InputFileError,
            >(e)
            &&& forall|j: int| 0 <= j < i ==> input_file_check(paths@[j]@, is_file@[j]) is Ok
        },
{
    let mut i: usize = 0;
    while i < paths.len()
        invariant
            paths@.len() == is_file@.len(),
            i <= paths@.len(),
            forall|j: int| 0 <= j < i ==> input_file_check(paths@[j]@, is_file@[j]) is Ok,
        decreases paths@.len() - i,
    {
        match check_input_file(paths[i].as_str(), is_file[i]) {
            Ok(()) => {},
            Err(e) => {
                return Err((i, e));
            },
        }
        i += 1;
    }
    Ok(())
}

} // verus!
