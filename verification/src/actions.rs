//! Actions of the file-based module configuration: a piece of shell code or
//! an executable file, run with its arguments, elevated or not.

use vstd::prelude::*;

verus! {

/// What an action runs.
#[derive(Debug, PartialEq, Eq)]
pub enum RunExec {
    /// Shell code, run with `sh -c`.
    Code(String),
    /// An executable file.
    File(String),
}

/// An action of a module.
#[derive(Debug)]
pub struct ModuleAction {
    pub run: RunExec,
    pub sudo: bool,
    pub args: Option<Vec<String>>,
    pub eval_when: Option<String>,
}

impl ModuleAction {
    /// An action as configured: `exec` is a file (given here with variables
    /// expanded) when `exec_file` says so, else shell code; it is not
    /// elevated unless `sudo` says so.
    pub fn from_config(
        exec: String,
        exec_file: Option<bool>,
        expanded_exec: String,
        sudo: Option<bool>,
        args: Option<Vec<String>>,
        eval_when: Option<String>,
    ) -> (a: ModuleAction)
        ensures
            exec_file == Some(true) ==> a.run == RunExec::File(expanded_exec),
            exec_file != Some(true) ==> a.run == RunExec::Code(exec),
            a.sudo == (sudo == Some(true)),
            a.args == args,
            a.eval_when == eval_when,
    {
        let run = match exec_file {
            Some(true) => RunExec::File(expanded_exec),
            _ => RunExec::Code(exec),
        };
        ModuleAction {
            run,
            sudo: match sudo {
                Some(b) => b,
                None => false,
            },
            args,
            eval_when,
        }
    }

    /// The program an action starts and its arguments: `sh -c` with shell
    /// code; an elevated file through `sudo` with the file first; else the
    /// file itself; a file gets the action's arguments (none when unset).
    pub fn command_line(&self) -> (r: (String, Vec<String>))
        ensures
            self.run matches RunExec::Code(code) ==> r.0@ == "sh"@ && r.1.deep_view() == seq!["-c"@, code@],
            self.run matches RunExec::File(file) ==> if self.sudo {
                r.0@ == "sudo"@ && r.1.deep_view() == seq![file@] + args_of(self.args)
            } else {
                r.0@ == file@ && r.1.deep_view() == args_of(self.args)
            },
    {
        match &self.run {
            RunExec::Code(code) => {
                let mut args: Vec<String> = Vec::new();
                args.push("-c".to_string());
                args.push(code.clone());
                assert(args.deep_view() =~= seq!["-c"@, code@]);
                ("sh".to_string(), args)
            },
            RunExec::File(file) => {
                let mut args: Vec<String> = Vec::new();
                if self.sudo {
                    args.push(file.clone());
                }
                let ghost base = args.deep_view();
                match &self.args {
                    Some(a) => {
                        let mut i: usize = 0;
                        while i < a.len()
                            invariant
                                i <= a@.len(),
                                args.deep_view() == base + a.deep_view().take(i as int),
                            decreases a@.len() - i,
                        {
                            let ghost a0 = args.deep_view();
                            args.push(a[i].clone());
                            assert(args.deep_view() =~= a0.push(a@[i as int]@));
                            i = i + 1;
                            assert(args.deep_view() =~= base + a.deep_view().take(i as int));
                        }
                        assert(a.deep_view().take(i as int) =~= a.deep_view());
                    },
                    None => {
                        assert(args.deep_view() =~= base + Seq::<Seq<char>>::empty());
                    },
                }
                if self.sudo {
                    assert(base =~= seq![file@]);
                    ("sudo".to_string(), args)
                } else {
                    assert(base =~= Seq::<Seq<char>>::empty());
                    (file.clone(), args)
                }
            },
        }
    }
}

/// The arguments of an action, none when unset.
pub open spec fn args_of(args: Option<Vec<String>>) -> Seq<Seq<char>> {
    match args {
        Some(a) => a.deep_view(),
        None => Seq::empty(),
    }
}

} // verus!
