use vstd::prelude::*;
use vstd::string::StrSliceExecFns;
use vstd::string::StringExecFns;

verus! {

/// The mathematical value of a [`Command`]: the program name and the
/// arguments, each as a sequence of characters.
#[verifier::ext_equal]
pub struct CommandView {
    pub program: Seq<char>,
    pub args: Seq<Seq<char>>,
}

/// A planned program invocation: a program name plus an ordered argument
/// list. Argument order is preserved exactly as appended.
#[derive(Debug, PartialEq)]
pub struct Command {
    program: String,
    args: Vec<String>,
}

impl View for Command {
    type V = CommandView;

    closed spec fn view(&self) -> CommandView {
        CommandView { program: self.program@, args: self.args.deep_view() }
    }
}

impl DeepView for Command {
    type V = CommandView;

    open spec fn deep_view(&self) -> CommandView {
        self.view()
    }
}

/// How one argument appears in the rendered command line: preceded by a
/// space, and wrapped in double quotes when it contains a space itself.
pub open spec fn rendered_arg(arg: Seq<char>) -> Seq<char> {
    if arg.contains(' ') {
        seq![' ', '"'] + arg + seq!['"']
    } else {
        seq![' '] + arg
    }
}

/// The rendering of a whole argument list, in order.
pub open spec fn rendered_args(args: Seq<Seq<char>>) -> Seq<char>
    decreases args.len(),
{
    if args.len() == 0 {
        Seq::empty()
    } else {
        rendered_args(args.drop_last()) + rendered_arg(args.last())
    }
}

/// The display form of a command: the program name followed by each rendered
/// argument. The quoting is cosmetic, for readability only; execution must
/// never pass this string through a shell.
pub open spec fn rendered_command_line(c: CommandView) -> Seq<char> {
    c.program + rendered_args(c.args)
}

/// True when the character sequence holds a space.
fn contains_space(s: &str) -> (r: bool)
    ensures
        r == s@.contains(' '),
{
    let n = s.unicode_len();
    let mut i: usize = 0;
    while i < n
        invariant
            n == s@.len(),
            i <= n,
            forall|j: int| 0 <= j < i ==> s@[j] != ' ',
        decreases n - i,
    {
        if s.get_char(i) == ' ' {
            assert(s@.contains(' ')) by {
                assert(s@[i as int] == ' ');
            }
            return true;
        }
        i += 1;
    }
    assert(!s@.contains(' '));
    false
}

impl Command {
    /// Creates a command for the given program with an empty argument list.
    pub fn new(program: &str) -> (r: Self)
        ensures
            r@.program == program@,
            r@.args == Seq::<Seq<char>>::empty(),
    {
        let r = Self { program: program.to_owned(), args: Vec::new() };
        proof {
            assert(r@.args =~= Seq::<Seq<char>>::empty());
        }
        r
    }

    /// Appends a single argument. Arbitrary strings are accepted, including
    /// ones containing spaces.
    pub fn arg(&mut self, arg: &str)
        ensures
            final(self)@.program == old(self)@.program,
            final(self)@.args == old(self)@.args.push(arg@),
    {
        self.args.push(arg.to_owned());
        proof {
            assert(self@.args =~= old(self)@.args.push(arg@));
        }
    }

    /// Appends several arguments, in the order given.
    pub fn args(&mut self, args: &[&str])
        ensures
            final(self)@.program == old(self)@.program,
            final(self)@.args == old(self)@.args + args.deep_view(),
    {
        let ghost orig: CommandView = self@;
        let mut i: usize = 0;
        while i < args.len()
            invariant
                i <= args.len(),
                self@.program == orig.program,
                self@.args == orig.args + args.deep_view().subrange(0, i as int),
            decreases args.len() - i,
        {
            self.arg(args[i]);
            proof {
                assert(self@.args =~= orig.args + args.deep_view().subrange(0, i + 1 as int));
            }
            i += 1;
        }
        proof {
            assert(args.deep_view().subrange(0, args@.len() as int) =~= args.deep_view());
        }
    }

    /// Renders the command for display: the program name, then each argument
    /// separated by spaces, quoting arguments that contain a space.
    pub fn to_command_line(&self) -> (r: String)
        ensures
            r@ == rendered_command_line(self@),
    {
        let mut line = String::new();
        line.append(self.program.as_str());
        let mut i: usize = 0;
        while i < self.args.len()
            invariant
                i <= self.args.len(),
                line@ == self@.program + rendered_args(self@.args.subrange(0, i as int)),
            decreases self.args.len() - i,
        {
            let ghost prefix: Seq<Seq<char>> = self@.args.subrange(0, i as int);
            let a = &self.args[i];
            if contains_space(a.as_str()) {
                line.append(" \"");
                line.append(a.as_str());
                line.append("\"");
                proof {
                    reveal_strlit(" \"");
                    reveal_strlit("\"");
                    assert(" \""@ =~= seq![' ', '"']);
                    assert("\""@ =~= seq!['"']);
                }
            } else {
                line.append(" ");
                line.append(a.as_str());
                proof {
                    reveal_strlit(" ");
                    assert(" "@ =~= seq![' ']);
                }
            }
            proof {
                let longer = self@.args.subrange(0, i + 1 as int);
                assert(longer.drop_last() =~= prefix);
                assert(longer.last() == a@);
                assert(line@ =~= self@.program + rendered_args(longer));
            }
            i += 1;
        }
        proof {
            assert(self@.args.subrange(0, self.args@.len() as int) =~= self@.args);
        }
        line
    }

    /// Structural equality: same program and the same argument sequence.
    pub fn same_as(&self, other: &Command) -> (r: bool)
        ensures
            r == (self@ == other@),
    {
        if !(self.program == other.program) {
            return false;
        }
        if self.args.len() != other.args.len() {
            proof {
                assert(self@.args.len() != other@.args.len());
            }
            return false;
        }
        let n = self.args.len();
        let mut i: usize = 0;
        while i < n
            invariant
                n == self.args.len(),
                n == other.args.len(),
                i <= n,
                self@.program == other@.program,
                forall|j: int| 0 <= j < i ==> self@.args[j] == other@.args[j],
            decreases n - i,
        {
            if !(self.args[i] == other.args[i]) {
                assert(self@.args[i as int] != other@.args[i as int]);
                return false;
            }
            i += 1;
        }
        proof {
            assert(self@.args =~~= other@.args);
            assert(self@ =~~= other@);
        }
        true
    }

    /// The program name, for handing the command to a process launcher.
    pub fn program(&self) -> (r: &String)
        ensures
            r@ == self@.program,
    {
        &self.program
    }

    /// The argument list, for handing the command to a process launcher.
    pub fn arg_list(&self) -> (r: &Vec<String>)
        ensures
            r.deep_view() == self@.args,
    {
        &self.args
    }
}

} // verus!
