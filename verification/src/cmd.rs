//! A fully resolved invocation of the external exporter: the path of the
//! executable plus one argument set, and its rendering as a command line.

use vstd::prelude::*;

use crate::args::ArgsModel;
use crate::args::InkscapeArgs;
use crate::args::spec_export_args;
use crate::text::join_char;
use crate::text::lemma_join_push;

verus! {

/// Mathematical model of one invocation: the executable path and the argument
/// set it is given.
pub ghost struct CmdModel {
    pub exe: Seq<char>,
    pub args: ArgsModel,
}

/// An export command ready to launch: the resolved executable path and the
/// argument set to pass to it.
#[derive(Debug)]
pub struct InkscapeCmd {
    pub exe_path: String,
    pub args: InkscapeArgs,
}

impl View for InkscapeCmd {
    type V = CmdModel;

    open spec fn view(&self) -> CmdModel {
        CmdModel { exe: self.exe_path@, args: self.args@ }
    }
}

impl DeepView for InkscapeCmd {
    type V = CmdModel;

    open spec fn deep_view(&self) -> CmdModel {
        self.view()
    }
}

/// The full command line of an invocation: the executable path first, then
/// the serialized arguments.
pub open spec fn spec_command_line(c: CmdModel) -> Seq<Seq<char>> {
    seq![c.exe] + spec_export_args(c.args)
}

/// The line reported for a dry run: the command line joined with single
/// spaces behind the `DRYRUN: ` marker.
pub open spec fn spec_dryrun_line(c: CmdModel) -> Seq<char> {
    "DRYRUN: "@ + join_char(spec_command_line(c), ' ')
}

impl InkscapeCmd {
    /// Pairs a resolved executable path with an argument set.
    pub fn new(exe_path: String, args: InkscapeArgs) -> (r: InkscapeCmd)
        ensures
            r@ == (CmdModel { exe: exe_path@, args: args@ }),
    {
        InkscapeCmd { exe_path, args }
    }

    /// The command line to launch: the executable path, the `--export-type=`
    /// flag when any format is selected, and the input path when one is given.
    pub fn command_line(&self) -> (argv: Vec<String>)
        ensures
            argv.deep_view() == spec_command_line(self@),
    {
        let mut argv: Vec<String> = Vec::new();
        argv.push(self.exe_path.clone());
        match self.args.export_type_flag() {
            Some(flag) => argv.push(flag),
            None => (),
        }
        match &self.args.file_path_input {
            Some(p) => argv.push(p.clone()),
            None => (),
        }
        proof {
            assert(argv.deep_view() =~= spec_command_line(self@));
        }
        argv
    }

    /// The dry-run report of this invocation: the whole command line as one
    /// space-separated string, marked as a dry run. Nothing is launched.
    pub fn dryrun(&self) -> (line: String)
        ensures
            line@ == spec_dryrun_line(self@),
    {
        let argv = self.command_line();
        let ghost toks = spec_command_line(self@);
        let mut line = String::from_str("DRYRUN: ");
        proof {
            assert(toks.subrange(0, 0) =~= Seq::<Seq<char>>::empty());
            assert(line@ =~= "DRYRUN: "@ + join_char(toks.subrange(0, 0), ' '));
        }
        let mut i: usize = 0;
        while i < argv.len()
            invariant
                0 <= i <= argv.len(),
                argv.deep_view() == toks,
                argv@.len() == toks.len(),
                line@ == "DRYRUN: "@ + join_char(toks.subrange(0, i as int), ' '),
            decreases argv.len() - i,
        {
            let ghost done = toks.subrange(0, i as int);
            proof {
                lemma_join_push(done, toks[i as int], ' ');
                assert(done.push(toks[i as int]) =~= toks.subrange(0, (i + 1) as int));
            }
            if i > 0 {
                line.append(" ");
                proof {
                    reveal_strlit(" ");
                    assert(" "@ =~= seq![' ']);
                }
            }
            line.append(argv[i].as_str());
            i = i + 1;
        }
        proof {
            assert(toks.subrange(0, toks.len() as int) =~= toks);
        }
        line
    }
}

} // verus!
