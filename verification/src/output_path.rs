use vstd::prelude::*;
use vstd::string::StrSliceExecFns;
use vstd::string::StringExecFns;

use crate::command::Command;
use crate::command::CommandView;

verus! {

/// The index of the last occurrence of `c` in `s`, or `-1` when `c` does not
/// occur.
pub open spec fn last_index_of(s: Seq<char>, c: char) -> int
    decreases s.len(),
{
    if s.len() == 0 {
        -1
    } else if s.last() == c {
        s.len() - 1
    } else {
        last_index_of(s.drop_last(), c)
    }
}

pub proof fn lemma_last_index_of(s: Seq<char>, c: char)
    ensures
        -1 <= last_index_of(s, c) < s.len(),
        last_index_of(s, c) >= 0 ==> s[last_index_of(s, c)] == c,
        forall|j: int| last_index_of(s, c) < j < s.len() ==> s[j] != c,
    decreases s.len(),
{
    if s.len() > 0 && s.last() != c {
        lemma_last_index_of(s.drop_last(), c);
        assert forall|j: int| last_index_of(s, c) < j < s.len() implies s[j] != c by {
            if j < s.len() - 1 {
                assert(s.drop_last()[j] == s[j]);
            }
        }
    }
}

/// The text before the last `/`, or the empty sequence when there is no `/`.
pub open spec fn parent_of(p: Seq<char>) -> Seq<char> {
    let k = last_index_of(p, '/');
    if k < 0 {
        Seq::empty()
    } else {
        p.subrange(0, k)
    }
}

/// The text after the last `/` (the whole path when there is no `/`).
pub open spec fn file_name_of(p: Seq<char>) -> Seq<char> {
    p.subrange(last_index_of(p, '/') + 1, p.len() as int)
}

/// The file name with its extension removed: the text before the last `.`,
/// except that a name whose only `.` leads it (or that has none) is kept
/// whole.
pub open spec fn stem_of(name: Seq<char>) -> Seq<char> {
    let k = last_index_of(name, '.');
    if k <= 0 {
        name
    } else {
        name.subrange(0, k)
    }
}

/// The directory the derived output lands in: `converted`, extended by the
/// input's parent directory when there is a non-empty one.
pub open spec fn output_folder_of(p: Seq<char>) -> Seq<char> {
    if parent_of(p).len() == 0 {
        "converted"@
    } else {
        "converted/"@ + parent_of(p)
    }
}

/// The derived output path: `converted/<parent>/<stem>.<extension>`, or
/// `None` when the input has no usable (non-empty) file stem.
pub open spec fn output_path_of(p: Seq<char>, extension: Seq<char>) -> Option<Seq<char>> {
    let stem = stem_of(file_name_of(p));
    if stem.len() == 0 {
        None
    } else {
        Some(output_folder_of(p) + "/"@ + stem + "."@ + extension)
    }
}

/// The directory-creation command for a folder: `mkdir -p <folder>`.
pub open spec fn mkdir_view(folder: Seq<char>) -> CommandView {
    CommandView { program: "mkdir"@, args: seq!["-p"@, folder] }
}

/// The directory-creation command a path needs before a file can be written
/// at it: none when the path has no non-empty parent directory.
pub open spec fn mkdir_command_of(p: Seq<char>) -> Option<CommandView> {
    if parent_of(p).len() == 0 {
        None
    } else {
        Some(mkdir_view(parent_of(p)))
    }
}

/// A derived output path always lies inside a directory: `converted/` at
/// least. Its parent is therefore never empty, and a directory-creation
/// command for it always exists.
pub proof fn lemma_output_path_has_parent(p: Seq<char>, extension: Seq<char>)
    requires
        output_path_of(p, extension) is Some,
    ensures
        mkdir_command_of(output_path_of(p, extension).unwrap()) is Some,
{
    reveal_strlit("converted");
    reveal_strlit("converted/");
    reveal_strlit("/");
    let out = output_path_of(p, extension).unwrap();
    assert(out[9] == '/');
    lemma_last_index_of(out, '/');
    let k = last_index_of(out, '/');
    assert(k >= 9);
    assert(parent_of(out).len() == k);
}

/// Every derivable output path begins with `converted/` and ends with a dot
/// followed by the requested extension.
pub proof fn lemma_output_path_shape(p: Seq<char>, extension: Seq<char>)
    requires
        output_path_of(p, extension) is Some,
    ensures
        ({
            let out = output_path_of(p, extension).unwrap();
            &&& out.len() > "converted/"@.len()
            &&& out.subrange(0, "converted/"@.len() as int) == "converted/"@
            &&& out.len() > extension.len() + 1
            &&& out.subrange(out.len() - extension.len() - 1, out.len() as int) == "."@
                + extension
        }),
{
    reveal_strlit("converted");
    reveal_strlit("converted/");
    reveal_strlit("/");
    reveal_strlit(".");
    let out = output_path_of(p, extension).unwrap();
    let folder = output_folder_of(p);
    if parent_of(p).len() == 0 {
        assert(out.subrange(0, 10) =~= "converted/"@);
    } else {
        assert(out.subrange(0, 10) =~= "converted/"@);
    }
    assert(out.subrange(out.len() - extension.len() - 1, out.len() as int) =~= "."@ + extension);
}

/// No character of a derived output path at or past the end of its output
/// folder is a `/`, except the separator right after the folder; the parent
/// directory of the output path is therefore exactly the output folder,
/// provided the extension itself holds no `/`.
pub proof fn lemma_output_path_folder(p: Seq<char>, extension: Seq<char>)
    requires
        output_path_of(p, extension) is Some,
        forall|j: int| 0 <= j < extension.len() ==> extension[j] != '/',
    ensures
        parent_of(output_path_of(p, extension).unwrap()) == output_folder_of(p),
{
    reveal_strlit("/");
    reveal_strlit(".");
    let out = output_path_of(p, extension).unwrap();
    let folder = output_folder_of(p);
    let name = file_name_of(p);
    let stem = stem_of(name);
    lemma_last_index_of(p, '/');
    lemma_last_index_of(name, '.');
    assert(forall|j: int| 0 <= j < name.len() ==> name[j] != '/');
    assert forall|j: int| 0 <= j < stem.len() implies stem[j] != '/' by {
        assert(stem[j] == name[j]);
    }
    assert(out[folder.len() as int] == '/');
    assert(forall|j: int| folder.len() < j < out.len() ==> out[j] != '/');
    lemma_last_index_of(out, '/');
    let k = last_index_of(out, '/');
    assert(k == folder.len());
    assert(parent_of(out) =~= folder);
}

/// The index of the last occurrence of `c` in `s`, when there is one.
pub(crate) fn find_last(s: &str, c: char) -> (r: Option<usize>)
    ensures
        match r {
            Some(i) => i < s@.len() && last_index_of(s@, c) == i as int,
            None => last_index_of(s@, c) == -1,
        },
{
    let n = s.unicode_len();
    let mut i: usize = n;
    proof {
        assert(s@.subrange(0, n as int) =~= s@);
    }
    while i > 0
        invariant
            n == s@.len(),
            i <= n,
            last_index_of(s@, c) == last_index_of(s@.subrange(0, i as int), c),
        decreases i,
    {
        let ghost before: Seq<char> = s@.subrange(0, i as int);
        i = i - 1;
        if s.get_char(i) == c {
            proof {
                assert(before.last() == s@[i as int]);
                assert(last_index_of(before, c) == i as int);
            }
            return Some(i);
        }
        proof {
            assert(before.last() == s@[i as int]);
            assert(before.drop_last() =~= s@.subrange(0, i as int));
        }
    }
    proof {
        assert(s@.subrange(0, 0) =~= Seq::<char>::empty());
    }
    None
}

/// Derives the output path for an input path and a target extension:
/// `converted/<parent>/<stem>.<extension>`, mirroring the input's relative
/// directory structure under `converted/`. Returns `None` when the input has
/// no usable file stem. Pure; no filesystem access.
pub fn parse(input: &str, extension: &str) -> (r: Option<String>)
    ensures
        r is Some <==> output_path_of(input@, extension@) is Some,
        r matches Some(s) ==> s@ == output_path_of(input@, extension@).unwrap(),
{
    let n = input.unicode_len();
    let (parent, name) = match find_last(input, '/') {
        Some(k) => (input.substring_char(0, k), input.substring_char(k + 1, n)),
        None => {
            let empty = "";
            proof {
                reveal_strlit("");
                assert(empty@ =~= parent_of(input@));
                assert(input@ =~= file_name_of(input@));
            }
            (empty, input)
        },
    };
    proof {
        assert(parent@ == parent_of(input@));
        assert(name@ == file_name_of(input@));
    }
    let name_len = name.unicode_len();
    let stem = match find_last(name, '.') {
        Some(k) if k > 0 => name.substring_char(0, k),
        _ => name,
    };
    proof {
        assert(stem@ == stem_of(file_name_of(input@)));
    }
    if stem.unicode_len() == 0 {
        return None;
    }
    let mut out = String::new();
    out.append("converted");
    if parent.unicode_len() > 0 {
        out.append("/");
        out.append(parent);
    }
    out.append("/");
    out.append(stem);
    out.append(".");
    out.append(extension);
    proof {
        reveal_strlit("converted");
        reveal_strlit("converted/");
        reveal_strlit("/");
        reveal_strlit(".");
        assert("converted/"@ =~= "converted"@ + "/"@);
        assert(out@ =~= output_path_of(input@, extension@).unwrap());
    }
    Some(out)
}

/// The command that creates the directory a file path lies in (`mkdir -p
/// <parent>`), or `None` when the path has no non-empty parent directory.
/// Pure; the directory creation itself is deferred to execution time.
pub fn create_folder_for_file_path_command(path: &str) -> (r: Option<Command>)
    ensures
        r is Some <==> mkdir_command_of(path@) is Some,
        r matches Some(c) ==> c@ == mkdir_command_of(path@).unwrap(),
{
    let folder = match find_last(path, '/') {
        Some(k) if k > 0 => path.substring_char(0, k),
        _ => {
            return None;
        },
    };
    proof {
        assert(folder@ == parent_of(path@));
    }
    let mut command = Command::new("mkdir");
    command.arg("-p");
    command.arg(folder);
    proof {
        assert(command@.args =~= seq!["-p"@, folder@]);
    }
    Some(command)
}

} // verus!
