//! One call of the tool, as read from its command line.

use crate::error::{result_view, Error, ErrorView};
use crate::quote::{quote_arguments, quoted_list};
use vstd::prelude::*;

verus! {

/// The arguments of one run: `<target> [dependency...] [--verbose] [--infer]
/// -- <command> [args...]`.
///
/// A value of this type is always usable: it has a command, and it does not
/// ask for inference while naming dependencies itself.
#[derive(Debug)]
pub struct Invocation {
    target: String,
    dependencies: Vec<String>,
    infer: bool,
    verbose: bool,
    command: Vec<String>,
}

/// An invocation as plain values.
pub struct InvocationView {
    /// The file whose freshness decides.
    pub target: Seq<char>,
    /// The dependencies named on the command line.
    pub dependencies: Seq<Seq<char>>,
    /// Whether the dependencies are to be inferred from the command.
    pub infer: bool,
    /// Whether the command is echoed before it runs.
    pub verbose: bool,
    /// The program, followed by its arguments.
    pub command: Seq<Seq<char>>,
}

impl InvocationView {
    /// What is wrong with the command line, if anything. Inference together
    /// with named dependencies is reported before a missing command.
    pub open spec fn usage_error(self) -> Option<ErrorView> {
        if self.infer && self.dependencies.len() > 0 {
            Some(ErrorView::InferWithDependencies)
        } else if self.command.len() == 0 {
            Some(ErrorView::MissingCommand)
        } else {
            None
        }
    }

    /// The invocation itself where it is usable, its usage error where not.
    pub open spec fn accepted(self) -> Result<InvocationView, ErrorView> {
        match self.usage_error() {
            Some(error) => Err(error),
            None => Ok(self),
        }
    }

    /// The program to start.
    pub open spec fn program(self) -> Seq<char>
        recommends
            self.command.len() > 0,
    {
        self.command[0]
    }

    /// The arguments handed to the program: the command without its first
    /// token. Inference looks for dependencies among these.
    pub open spec fn arguments(self) -> Seq<Seq<char>> {
        self.command.skip(1)
    }

    /// The line that a verbose run prints before it starts the command: the
    /// program, a space, and the arguments as a quoted list.
    pub open spec fn command_line(self) -> Seq<char>
        recommends
            self.command.len() > 0,
    {
        self.program() + seq![' '] + quoted_list(self.arguments())
    }

    /// What a run prints before it starts the command.
    pub open spec fn echo(self) -> Option<Seq<char>> {
        if self.verbose {
            Some(self.command_line())
        } else {
            None
        }
    }
}

impl View for Invocation {
    type V = InvocationView;

    closed spec fn view(&self) -> InvocationView {
        InvocationView {
            target: self.target@,
            dependencies: self.dependencies.deep_view(),
            infer: self.infer,
            verbose: self.verbose,
            command: self.command.deep_view(),
        }
    }
}

impl DeepView for Invocation {
    type V = InvocationView;

    open spec fn deep_view(&self) -> InvocationView {
        self@
    }
}

impl Invocation {
    /// What holds of every invocation: nothing is wrong with its command
    /// line.
    #[verifier::type_invariant]
    pub open spec fn usable(&self) -> bool {
        self@.usage_error() is None
    }

    /// Takes the arguments of a run, or says what is wrong with them.
    ///
    /// Nothing is looked up in the file system: a usage error is known
    /// before any path is touched.
    pub fn new(
        target: String,
        dependencies: Vec<String>,
        infer: bool,
        verbose: bool,
        command: Vec<String>,
    ) -> (result: Result<Invocation, Error>)
        ensures
            result_view(result) == (InvocationView {
                target: target@,
                dependencies: dependencies.deep_view(),
                infer,
                verbose,
                command: command.deep_view(),
            }).accepted(),
    {
        if infer && dependencies.len() > 0 {
            Err(Error::InferWithDependencies)
        } else if command.len() == 0 {
            Err(Error::MissingCommand)
        } else {
            Ok(Invocation { target, dependencies, infer, verbose, command })
        }
    }

    /// The file whose freshness decides.
    pub fn target(&self) -> (target: &String)
        ensures
            target@ == self@.target,
    {
        &self.target
    }

    /// The dependencies named on the command line; none where they are to
    /// be inferred.
    pub fn dependencies(&self) -> (dependencies: &[String])
        ensures
            dependencies.deep_view() == self@.dependencies,
            self@.infer ==> dependencies@.len() == 0,
    {
        proof {
            use_type_invariant(self);
        }
        let dependencies = self.dependencies.as_slice();
        assert(dependencies.deep_view() == self.dependencies.deep_view());
        dependencies
    }

    /// Whether the dependencies are to be inferred from the command.
    pub fn infer(&self) -> (infer: bool)
        ensures
            infer == self@.infer,
    {
        self.infer
    }

    /// The program to start.
    pub fn program(&self) -> (program: &String)
        ensures
            self@.command.len() > 0,
            program@ == self@.program(),
    {
        proof {
            use_type_invariant(self);
        }
        &self.command[0]
    }

    /// The arguments handed to the program.
    pub fn arguments(&self) -> (arguments: &[String])
        ensures
            arguments.deep_view() == self@.arguments(),
    {
        proof {
            use_type_invariant(self);
        }
        let command = self.command.as_slice();
        let arguments = &command[1..command.len()];
        assert(arguments.deep_view() == self.command.deep_view().skip(1));
        arguments
    }

    /// The line to print before the command starts, if the run is verbose.
    pub fn echo(&self) -> (line: Option<String>)
        ensures
            line.deep_view() == self@.echo(),
    {
        if self.verbose {
            let list = quote_arguments(self.arguments());
            proof {
                reveal_strlit(" ");
            }
            Some(self.program().clone().concat(" ").concat(list.as_str()))
        } else {
            None
        }
    }
}

} // verus!
