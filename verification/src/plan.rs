use vstd::prelude::*;

use crate::cli::SubCommand;
use crate::command::Command;
use crate::command::CommandView;
use crate::output_path::create_folder_for_file_path_command;
use crate::output_path::lemma_output_path_has_parent;
use crate::output_path::mkdir_command_of;
use crate::output_path::mkdir_view;
use crate::output_path::output_path_of;
use crate::output_path::parent_of;
use crate::output_path::parse;

verus! {

/// Why a command plan could not be assembled.
#[derive(Clone, Copy, Debug, PartialEq, Eq, Structural)]
pub enum PlanError {
    /// No output path could be derived for the input file at this index (its
    /// file stem is empty or unusable).
    NoOutputPath { index: usize },
}

/// A plan's directory-creation section after one more needed command `m`:
/// unchanged when an equal command is already present, else extended by `m`.
/// Deduplication is by structural equality, keeping first-seen order.
pub open spec fn add_mkdir(mkdirs: Seq<CommandView>, m: CommandView) -> Seq<CommandView> {
    if mkdirs.contains(m) {
        mkdirs
    } else {
        mkdirs.push(m)
    }
}

/// The two sections of the command plan after the first `n` input files: the
/// deduplicated directory-creation commands and the per-file conversion
/// commands, or `None` when some of those files has no derivable output
/// path.
pub open spec fn plan_parts(s: SubCommand, n: int) -> Option<(Seq<CommandView>, Seq<CommandView>)>
    decreases n,
{
    if n <= 0 {
        Some((Seq::empty(), Seq::empty()))
    } else {
        match plan_parts(s, n - 1) {
            None => None,
            Some(parts) => {
                let file = input_files_of(s)[n - 1];
                match output_path_of(file, target_extension(s)) {
                    None => None,
                    Some(out) => Some(
                        (
                            add_mkdir(parts.0, mkdir_view(parent_of(out))),
                            parts.1.push(conversion_command(s, file, out)),
                        ),
                    ),
                }
            },
        }
    }
}

/// The whole command plan of a subcommand: all directory-creation commands
/// first (deduplicated, in first-seen order), then one conversion command per
/// input file, in input-file order. `None` when some input file has no
/// derivable output path.
pub open spec fn plan_of(s: SubCommand) -> Option<Seq<CommandView>> {
    match plan_parts(s, input_files_of(s).len() as int) {
        None => None,
        Some(parts) => Some(parts.0 + parts.1),
    }
}

/// Once some file has no derivable output path, no plan over any longer
/// prefix of the input files exists either.
proof fn lemma_plan_parts_none(s: SubCommand, i: int, n: int)
    requires
        0 <= i <= n,
        plan_parts(s, i) is None,
    ensures
        plan_parts(s, n) is None,
    decreases n - i,
{
    if i < n {
        lemma_plan_parts_none(s, i, n - 1);
    }
}

/// The output extension a subcommand converts to (empty for the version
/// query, which converts nothing).
pub open spec fn target_extension(s: SubCommand) -> Seq<char> {
    match s {
        SubCommand::Versions => Seq::empty(),
        SubCommand::Photo { .. } => "jpg"@,
        SubCommand::Screenshot { .. } => "png"@,
        SubCommand::Sound { .. } => "mp3"@,
        SubCommand::Opus { .. } => "ogg"@,
        SubCommand::Video { .. } => "mp4"@,
        SubCommand::Gifish { .. } => "mp4"@,
    }
}

/// The input files a subcommand was given.
pub open spec fn input_files_of(s: SubCommand) -> Seq<Seq<char>> {
    match s {
        SubCommand::Versions => Seq::empty(),
        SubCommand::Photo { input_files, .. } => input_files.deep_view(),
        SubCommand::Screenshot { input_files, .. } => input_files.deep_view(),
        SubCommand::Sound { input_files } => input_files.deep_view(),
        SubCommand::Opus { input_files } => input_files.deep_view(),
        SubCommand::Video { input_files } => input_files.deep_view(),
        SubCommand::Gifish { input_files } => input_files.deep_view(),
    }
}

/// The conversion command a subcommand's recipe plans for one input file and
/// its derived output path. The version query plans no conversions; its arm
/// is never reached.
pub open spec fn conversion_command(s: SubCommand, file: Seq<char>, out: Seq<char>) -> CommandView {
    match s {
        SubCommand::Versions => CommandView { program: Seq::empty(), args: Seq::empty() },
        SubCommand::Photo { strip, resize, resize_size, .. } => CommandView {
            program: "convert"@,
            args: seq![
                file,
                "-background"@,
                "black"@,
                "-alpha"@,
                "remove"@,
                "-sampling-factor"@,
                "4:2:0"@,
            ] + (if strip {
                seq!["-strip"@]
            } else {
                Seq::empty()
            }) + (if resize {
                seq!["-resize"@, resize_size@]
            } else {
                Seq::empty()
            }) + seq!["-quality"@, "85"@, out],
        },
        SubCommand::Screenshot { strip, pedantic, .. } => CommandView {
            program: "oxipng"@,
            args: (if pedantic {
                seq!["-Z"@]
            } else {
                Seq::empty()
            }) + (if strip {
                seq!["--strip"@, "safe"@]
            } else {
                Seq::empty()
            }) + seq![file, "--out"@, out],
        },
        SubCommand::Sound { .. } => CommandView {
            program: "ffmpeg"@,
            args: seq!["-v"@, "error"@, "-stats"@, "-vn"@, "-i"@, file, out],
        },
        SubCommand::Opus { .. } => CommandView {
            program: "ffmpeg"@,
            args: seq!["-v"@, "error"@, "-stats"@, "-vn"@, "-i"@, file, "-c:a"@, "libopus"@, out],
        },
        SubCommand::Video { .. } => CommandView {
            program: "ffmpeg"@,
            args: seq!["-v"@, "error"@, "-stats"@, "-i"@, file, out],
        },
        SubCommand::Gifish { .. } => CommandView {
            program: "ffmpeg"@,
            args: seq!["-v"@, "error"@, "-stats"@, "-an"@, "-i"@, file, out],
        },
    }
}

/// The output extension of a subcommand, as a string slice.
pub fn target_ext(sub: &SubCommand) -> (r: &'static str)
    ensures
        r@ == target_extension(*sub),
{
    match sub {
        SubCommand::Versions => {
            let r = "";
            proof {
                reveal_strlit("");
                assert(r@ =~= Seq::<char>::empty());
            }
            r
        },
        SubCommand::Photo { .. } => "jpg",
        SubCommand::Screenshot { .. } => "png",
        SubCommand::Sound { .. } => "mp3",
        SubCommand::Opus { .. } => "ogg",
        SubCommand::Video { .. } => "mp4",
        SubCommand::Gifish { .. } => "mp4",
    }
}

/// Builds the conversion command a subcommand's recipe plans for one input
/// file and its derived output path.
pub fn conversion_command_for(sub: &SubCommand, file: &str, out: &str) -> (r: Command)
    requires
        !(*sub is Versions),
    ensures
        r@ == conversion_command(*sub, file@, out@),
{
    match sub {
        SubCommand::Versions => {
            proof {
                assert(false);
            }
            Command::new("")
        },
        SubCommand::Photo { strip, resize, resize_size, .. } => {
            let mut c = Command::new("convert");
            c.arg(file);
            c.arg("-background");
            c.arg("black");
            c.arg("-alpha");
            c.arg("remove");
            c.arg("-sampling-factor");
            c.arg("4:2:0");
            if *strip {
                c.arg("-strip");
            }
            if *resize {
                c.arg("-resize");
                c.arg(resize_size.as_str());
            }
            c.arg("-quality");
            c.arg("85");
            c.arg(out);
            proof {
                assert(c@.args =~= conversion_command(*sub, file@, out@).args);
            }
            c
        },
        SubCommand::Screenshot { strip, pedantic, .. } => {
            let mut c = Command::new("oxipng");
            if *pedantic {
                c.arg("-Z");
            }
            if *strip {
                c.arg("--strip");
                c.arg("safe");
            }
            c.arg(file);
            c.arg("--out");
            c.arg(out);
            proof {
                assert(c@.args =~= conversion_command(*sub, file@, out@).args);
            }
            c
        },
        SubCommand::Sound { .. } => {
            let mut c = Command::new("ffmpeg");
            c.arg("-v");
            c.arg("error");
            c.arg("-stats");
            c.arg("-vn");
            c.arg("-i");
            c.arg(file);
            c.arg(out);
            proof {
                assert(c@.args =~= conversion_command(*sub, file@, out@).args);
            }
            c
        },
        SubCommand::Opus { .. } => {
            let mut c = Command::new("ffmpeg");
            c.arg("-v");
            c.arg("error");
            c.arg("-stats");
            c.arg("-vn");
            c.arg("-i");
            c.arg(file);
            c.arg("-c:a");
            c.arg("libopus");
            c.arg(out);
            proof {
                assert(c@.args =~= conversion_command(*sub, file@, out@).args);
            }
            c
        },
        SubCommand::Video { .. } => {
            let mut c = Command::new("ffmpeg");
            c.arg("-v");
            c.arg("error");
            c.arg("-stats");
            c.arg("-i");
            c.arg(file);
            c.arg(out);
            proof {
                assert(c@.args =~= conversion_command(*sub, file@, out@).args);
            }
            c
        },
        SubCommand::Gifish { .. } => {
            let mut c = Command::new("ffmpeg");
            c.arg("-v");
            c.arg("error");
            c.arg("-stats");
            c.arg("-an");
            c.arg("-i");
            c.arg(file);
            c.arg(out);
            proof {
                assert(c@.args =~= conversion_command(*sub, file@, out@).args);
            }
            c
        },
    }
}

/// No recipe's output extension holds a `/`.
pub proof fn lemma_target_extension_no_slash(s: SubCommand)
    ensures
        forall|j: int| 0 <= j < target_extension(s).len() ==> target_extension(s)[j] != '/',
{
    reveal_strlit("jpg");
    reveal_strlit("png");
    reveal_strlit("mp3");
    reveal_strlit("ogg");
    reveal_strlit("mp4");
}

/// The plan sections over input files that all share one output folder: one
/// single directory-creation command, then the conversion commands in
/// input-file order.
proof fn lemma_plan_parts_shared_folder(s: SubCommand, n: int)
    requires
        !(s is Versions),
        1 <= n <= input_files_of(s).len(),
        forall|j: int|
            0 <= j < n ==> output_path_of(input_files_of(s)[j], target_extension(s)) is Some,
        forall|j: int|
            0 <= j < n ==> crate::output_path::output_folder_of(#[trigger] input_files_of(s)[j])
                == crate::output_path::output_folder_of(input_files_of(s)[0]),
    ensures
        plan_parts(s, n) is Some,
        plan_parts(s, n).unwrap().0 == seq![
            mkdir_view(crate::output_path::output_folder_of(input_files_of(s)[0])),
        ],
        plan_parts(s, n).unwrap().1.len() == n,
        forall|j: int|
            0 <= j < n ==> plan_parts(s, n).unwrap().1[j] == conversion_command(
                s,
                input_files_of(s)[j],
                output_path_of(input_files_of(s)[j], target_extension(s)).unwrap(),
            ),
    decreases n,
{
    let files = input_files_of(s);
    let ext = target_extension(s);
    let folder = crate::output_path::output_folder_of(files[0]);
    let m = mkdir_view(folder);
    lemma_target_extension_no_slash(s);
    crate::output_path::lemma_output_path_folder(files[n - 1], ext);
    assert(parent_of(output_path_of(files[n - 1], ext).unwrap()) == folder);
    if n == 1 {
        assert(!Seq::<CommandView>::empty().contains(m));
        assert(plan_parts(s, 1).unwrap().0 =~= seq![m]);
    } else {
        lemma_plan_parts_shared_folder(s, n - 1);
        assert(seq![m].contains(m)) by {
            assert(seq![m][0] == m);
        }
        assert(add_mkdir(seq![m], m) == seq![m]);
    }
}

/// Over input files that all share one output folder, the plan holds exactly
/// one directory-creation command, followed by one conversion command per
/// input file, in input-file order.
pub proof fn lemma_plan_shared_folder(s: SubCommand)
    requires
        !(s is Versions),
        input_files_of(s).len() >= 1,
        forall|j: int|
            0 <= j < input_files_of(s).len() ==> output_path_of(
                input_files_of(s)[j],
                target_extension(s),
            ) is Some,
        forall|j: int|
            0 <= j < input_files_of(s).len() ==> crate::output_path::output_folder_of(
                #[trigger] input_files_of(s)[j],
            ) == crate::output_path::output_folder_of(input_files_of(s)[0]),
    ensures
        plan_of(s) is Some,
        plan_of(s).unwrap().len() == 1 + input_files_of(s).len(),
        plan_of(s).unwrap()[0] == mkdir_view(
            crate::output_path::output_folder_of(input_files_of(s)[0]),
        ),
        forall|j: int|
            1 <= j < plan_of(s).unwrap().len() ==> plan_of(s).unwrap()[j] == conversion_command(
                s,
                input_files_of(s)[j - 1],
                output_path_of(input_files_of(s)[j - 1], target_extension(s)).unwrap(),
            ),
{
    let n = input_files_of(s).len() as int;
    lemma_plan_parts_shared_folder(s, n);
}

/// True when the plan already holds a command structurally equal to `c`.
fn plan_contains(commands: &Vec<Command>, c: &Command) -> (r: bool)
    ensures
        r == commands.deep_view().contains(c@),
{
    let mut i: usize = 0;
    while i < commands.len()
        invariant
            i <= commands@.len(),
            forall|j: int| 0 <= j < i ==> commands.deep_view()[j] != c@,
        decreases commands@.len() - i,
    {
        if commands[i].same_as(c) {
            assert(commands.deep_view().contains(c@)) by {
                assert(commands.deep_view()[i as int] == c@);
            }
            return true;
        }
        i += 1;
    }
    assert(!commands.deep_view().contains(c@));
    false
}

/// Appends the directory-creation command that `output_file` needs, unless a
/// structurally equal command is already in the plan.
pub fn create_and_add_output_mkdir(commands: &mut Vec<Command>, output_file: &str)
    requires
        mkdir_command_of(output_file@) is Some,
    ensures
        final(commands).deep_view() == add_mkdir(
            old(commands).deep_view(),
            mkdir_command_of(output_file@).unwrap(),
        ),
{
    let mkdir = create_folder_for_file_path_command(output_file).unwrap();
    if !plan_contains(commands, &mkdir) {
        commands.push(mkdir);
        proof {
            assert(commands.deep_view() =~= old(commands).deep_view().push(
                mkdir_command_of(output_file@).unwrap(),
            ));
        }
    }
}

/// Assembles the command plan of a subcommand: first the deduplicated
/// directory-creation commands, in first-seen order, then one conversion
/// command per input file, in input-file order. Fails with the index of the
/// first input file whose output path cannot be derived; every file before
/// that index has a derivable one.
pub fn plan_commands(sub: &SubCommand) -> (r: Result<Vec<Command>, PlanError>)
    ensures
        r is Ok <==> plan_of(*sub) is Some,
        r matches Ok(v) ==> v.deep_view() == plan_of(*sub).unwrap(),
        r matches Err(PlanError::NoOutputPath { index }) ==> {
            let files = input_files_of(*sub);
            &&& (index as int) < files.len()
            &&& output_path_of(files[index as int], target_extension(*sub)) is None
            &&& forall|j: int|
                0 <= j < index ==> output_path_of(files[j], target_extension(*sub)) is Some
        },
{
    let files: &Vec<String> = match sub {
        SubCommand::Versions => {
            let empty: Vec<Command> = Vec::new();
            proof {
                assert(empty.deep_view() =~= plan_of(*sub).unwrap());
            }
            return Ok(empty);
        },
        SubCommand::Photo { input_files, .. } => input_files,
        SubCommand::Screenshot { input_files, .. } => input_files,
        SubCommand::Sound { input_files } => input_files,
        SubCommand::Opus { input_files } => input_files,
        SubCommand::Video { input_files } => input_files,
        SubCommand::Gifish { input_files } => input_files,
    };
    let ext = target_ext(sub);
    let mut mkdirs: Vec<Command> = Vec::new();
    let mut convs: Vec<Command> = Vec::new();
    proof {
        assert(mkdirs.deep_view() =~= Seq::<CommandView>::empty());
        assert(convs.deep_view() =~= Seq::<CommandView>::empty());
    }
    let mut i: usize = 0;
    while i < files.len()
        invariant
            i <= files@.len(),
            files.deep_view() == input_files_of(*sub),
            ext@ == target_extension(*sub),
            plan_parts(*sub, i as int) == Some((mkdirs.deep_view(), convs.deep_view())),
            forall|j: int|
                0 <= j < i ==> output_path_of(files.deep_view()[j], target_extension(*sub))
                    is Some,
        decreases files@.len() - i,
    {
        let ghost gfile: Seq<char> = files.deep_view()[i as int];
        let out = match parse(files[i].as_str(), ext) {
            Some(o) => o,
            None => {
                proof {
                    lemma_plan_parts_none(*sub, i + 1 as int, files.deep_view().len() as int);
                }
                return Err(PlanError::NoOutputPath { index: i });
            },
        };
        proof {
            lemma_output_path_has_parent(gfile, ext@);
        }
        create_and_add_output_mkdir(&mut mkdirs, out.as_str());
        let c = conversion_command_for(sub, files[i].as_str(), out.as_str());
        convs.push(c);
        proof {
            assert(convs.deep_view() =~= plan_parts(*sub, i + 1 as int).unwrap().1);
        }
        i += 1;
    }
    let mut result = mkdirs;
    result.append(&mut convs);
    proof {
        assert(result.deep_view() =~= plan_of(*sub).unwrap());
    }
    Ok(result)
}

/// Renders a command plan for a dry run: exactly one display line per
/// planned command, in plan order. Nothing is executed.
pub fn render_plan(commands: &Vec<Command>) -> (r: Vec<String>)
    ensures
        r@.len() == commands@.len(),
        forall|i: int|
            0 <= i < r@.len() ==> r@[i]@ == crate::command::rendered_command_line(
                commands.deep_view()[i],
            ),
{
    let mut lines: Vec<String> = Vec::new();
    let mut i: usize = 0;
    while i < commands.len()
        invariant
            i <= commands@.len(),
            lines@.len() == i,
            forall|j: int|
                0 <= j < i ==> lines@[j]@ == crate::command::rendered_command_line(
                    commands.deep_view()[j],
                ),
        decreases commands@.len() - i,
    {
        let line = commands[i].to_command_line();
        lines.push(line);
        i += 1;
    }
    lines
}

/// The version-query plan: each external tool invoked with its version flag.
pub open spec fn version_plan() -> Seq<CommandView> {
    seq![
        CommandView { program: "convert"@, args: seq!["--version"@] },
        CommandView { program: "ffmpeg"@, args: seq!["-version"@] },
        CommandView { program: "mkdir"@, args: seq!["--version"@] },
        CommandView { program: "oxipng"@, args: seq!["--version"@] },
    ]
}

/// The commands that query each external tool for its version and
/// availability.
pub fn version_check_commands() -> (r: Vec<Command>)
    ensures
        r.deep_view() == version_plan(),
{
    let mut commands: Vec<Command> = Vec::new();
    let mut c = Command::new("convert");
    c.arg("--version");
    commands.push(c);
    let mut c = Command::new("ffmpeg");
    c.arg("-version");
    commands.push(c);
    let mut c = Command::new("mkdir");
    c.arg("--version");
    commands.push(c);
    let mut c = Command::new("oxipng");
    c.arg("--version");
    commands.push(c);
    proof {
        assert(commands.deep_view()[0].args =~= seq!["--version"@]);
        assert(commands.deep_view()[1].args =~= seq!["-version"@]);
        assert(commands.deep_view()[2].args =~= seq!["--version"@]);
        assert(commands.deep_view()[3].args =~= seq!["--version"@]);
        assert(commands.deep_view() =~~= version_plan());
    }
    commands
}

} // verus!
