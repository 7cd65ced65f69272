//! The messages of one run: what is asked for, what is launched, what comes
//! back.

use crate::assoc::{duplicate, pairs_view};
use crate::error::{Error, ErrorView};
use crate::params::{args_view, Param, ParamView};
use crate::text::texts;
use vstd::prelude::*;

verus! {

/// A command to run: the command itself, its arguments, where it runs, what
/// its environment adds, and where its output streams go.
///
/// With `P = Param` this is what a client asks for; with `P = String` it is
/// what a server launches.
#[derive(Debug, PartialEq, Eq)]
pub struct RunSpecification<P> {
    pub command: P,
    pub args: Vec<P>,
    pub cwd: Option<String>,
    pub env: Option<Vec<(String, P)>>,
    pub stdout: Option<P>,
    pub stderr: Option<P>,
}

/// A run as a client describes it.
pub type RunRequest = RunSpecification<Param>;

/// A run with every parameter resolved to a string.
pub type RunRecipe = RunSpecification<String>;

/// How a run ended: the exit code of the command, or `-1` beside the reason
/// for which the server has no exit code to give.
#[derive(Debug, PartialEq, Eq)]
pub struct RunResponse {
    pub return_code: i32,
    pub exc: Option<String>,
}

/// What a [`RunSpecification`] stands for, over the views of its slots.
pub struct SpecificationView<T> {
    pub command: T,
    pub args: Seq<T>,
    pub cwd: Option<Seq<char>>,
    pub env: Option<Seq<(Seq<char>, T)>>,
    pub stdout: Option<T>,
    pub stderr: Option<T>,
}

pub struct ResponseView {
    pub return_code: int,
    pub exc: Option<Seq<char>>,
}

pub open spec fn text_view(text: Option<String>) -> Option<Seq<char>> {
    match text {
        Some(s) => Some(s@),
        None => None,
    }
}

pub open spec fn param_view(param: Option<Param>) -> Option<ParamView> {
    match param {
        Some(p) => Some(p@),
        None => None,
    }
}

pub open spec fn params_view(params: Seq<Param>) -> Seq<ParamView> {
    params.map_values(|p: Param| p@)
}

/// What came back for a request, a response or a failure, by its view.
pub open spec fn result_view(result: Result<RunResponse, Error>) -> Result<
    ResponseView,
    ErrorView,
> {
    match result {
        Ok(response) => Ok(response@),
        Err(e) => Err(e@),
    }
}

impl View for RunSpecification<Param> {
    type V = SpecificationView<ParamView>;

    open spec fn view(&self) -> SpecificationView<ParamView> {
        SpecificationView {
            command: self.command@,
            args: params_view(self.args@),
            cwd: text_view(self.cwd),
            env: match self.env {
                Some(entries) => Some(args_view(entries@)),
                None => None,
            },
            stdout: param_view(self.stdout),
            stderr: param_view(self.stderr),
        }
    }
}

impl View for RunSpecification<String> {
    type V = SpecificationView<Seq<char>>;

    open spec fn view(&self) -> SpecificationView<Seq<char>> {
        SpecificationView {
            command: self.command@,
            args: texts(self.args@),
            cwd: text_view(self.cwd),
            env: match self.env {
                Some(entries) => Some(pairs_view(entries@)),
                None => None,
            },
            stdout: text_view(self.stdout),
            stderr: text_view(self.stderr),
        }
    }
}

impl<P> RunSpecification<P> {
    /// A run of `command` on `args`, in the current directory, with nothing
    /// added to the environment and with both output streams left alone.
    pub fn new(command: P, args: Vec<P>) -> (r: RunSpecification<P>)
        ensures
            r == (RunSpecification {
                command,
                args,
                cwd: None,
                env: None,
                stdout: None,
                stderr: None,
            }),
    {
        RunSpecification { command, args, cwd: None, env: None, stdout: None, stderr: None }
    }

    /// The same run in the directory `cwd`.
    pub fn cwd(self, cwd: String) -> (r: RunSpecification<P>)
        ensures
            r == (RunSpecification { cwd: Some(cwd), ..self }),
    {
        RunSpecification { cwd: Some(cwd), ..self }
    }

    /// The same run with `env` added to its environment.
    pub fn env(self, env: Vec<(String, P)>) -> (r: RunSpecification<P>)
        ensures
            r == (RunSpecification { env: Some(env), ..self }),
    {
        RunSpecification { env: Some(env), ..self }
    }

    /// The same run with its standard output sent to `stdout`.
    pub fn stdout(self, stdout: P) -> (r: RunSpecification<P>)
        ensures
            r == (RunSpecification { stdout: Some(stdout), ..self }),
    {
        RunSpecification { stdout: Some(stdout), ..self }
    }

    /// The same run with its standard error sent to `stderr`.
    pub fn stderr(self, stderr: P) -> (r: RunSpecification<P>)
        ensures
            r == (RunSpecification { stderr: Some(stderr), ..self }),
    {
        RunSpecification { stderr: Some(stderr), ..self }
    }
}

impl View for RunResponse {
    type V = ResponseView;

    open spec fn view(&self) -> ResponseView {
        ResponseView { return_code: self.return_code as int, exc: text_view(self.exc) }
    }
}

fn copy_of_text(text: &Option<String>) -> (r: Option<String>)
    ensures
        text_view(r) == text_view(*text),
{
    match text {
        Some(s) => Some(s.clone()),
        None => None,
    }
}

fn copy_of_param(param: &Option<Param>) -> (r: Option<Param>)
    ensures
        param_view(r) == param_view(*param),
{
    match param {
        Some(p) => Some(p.clone()),
        None => None,
    }
}

impl Clone for RunSpecification<Param> {
    fn clone(&self) -> (r: RunSpecification<Param>)
        ensures
            r@ == self@,
    {
        let mut args: Vec<Param> = Vec::new();
        let mut i: usize = 0;
        while i < self.args.len()
            invariant
                i <= self.args.len(),
                args@.len() == i,
                forall|j: int| 0 <= j < i ==> args@[j]@ == self.args@[j]@,
            decreases self.args.len() - i,
        {
            args.push(self.args[i].clone());
            i += 1;
        }
        assert(params_view(args@) =~= params_view(self.args@));
        let env = match &self.env {
            None => None,
            Some(bindings) => {
                let mut out: Vec<(String, Param)> = Vec::new();
                let mut k: usize = 0;
                while k < bindings.len()
                    invariant
                        k <= bindings.len(),
                        out@.len() == k,
                        forall|j: int|
                            0 <= j < k ==> out@[j].0@ == bindings@[j].0@ && out@[j].1@
                                == bindings@[j].1@,
                    decreases bindings.len() - k,
                {
                    out.push((bindings[k].0.clone(), bindings[k].1.clone()));
                    k += 1;
                }
                assert(args_view(out@) =~= args_view(bindings@));
                Some(out)
            },
        };
        RunSpecification {
            command: self.command.clone(),
            args,
            cwd: copy_of_text(&self.cwd),
            env,
            stdout: copy_of_param(&self.stdout),
            stderr: copy_of_param(&self.stderr),
        }
    }
}

impl Clone for RunSpecification<String> {
    fn clone(&self) -> (r: RunSpecification<String>)
        ensures
            r@ == self@,
    {
        let mut args: Vec<String> = Vec::new();
        let mut i: usize = 0;
        while i < self.args.len()
            invariant
                i <= self.args.len(),
                args@.len() == i,
                forall|j: int| 0 <= j < i ==> args@[j]@ == self.args@[j]@,
            decreases self.args.len() - i,
        {
            args.push(self.args[i].clone());
            i += 1;
        }
        assert(texts(args@) =~= texts(self.args@));
        RunSpecification {
            command: self.command.clone(),
            args,
            cwd: copy_of_text(&self.cwd),
            env: match &self.env {
                Some(bindings) => Some(duplicate(bindings)),
                None => None,
            },
            stdout: copy_of_text(&self.stdout),
            stderr: copy_of_text(&self.stderr),
        }
    }
}

impl Clone for RunResponse {
    fn clone(&self) -> (r: RunResponse)
        ensures
            r@ == self@,
    {
        RunResponse { return_code: self.return_code, exc: copy_of_text(&self.exc) }
    }
}

} // verus!
