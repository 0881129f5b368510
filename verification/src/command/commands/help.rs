use vstd::prelude::*;

verus! {

use crate::command::{
    ArgumentSignature,
    ArgumentSignatureView,
    Command,
    CommandFactory,
    Context,
    Error,
    ParsedArgument,
    ParsedArgumentView,
};
use crate::configuration::Config;

/// The built-in `help` command. It declares no arguments, so validation
/// accepts any supplied tokens, and for now it succeeds without doing
/// anything.
pub struct HelpCommand {}

impl HelpCommand {
    pub fn new() -> (c: HelpCommand)
        ensures
            c.spec_name() == "help"@,
            c.spec_arguments() == Seq::<ArgumentSignatureView>::empty(),
    {
        HelpCommand {  }
    }
}

impl Command for HelpCommand {
    open spec fn spec_name(&self) -> Seq<char> {
        "help"@
    }

    open spec fn spec_arguments(&self) -> Seq<ArgumentSignatureView> {
        Seq::empty()
    }

    open spec fn call_admits(&self, args: Seq<ParsedArgumentView>, r: Result<(), Error>) -> bool {
        r is Ok
    }

    fn name(&self) -> (n: String) {
        "help".to_owned()
    }

    fn aliases(&self) -> (a: Vec<String>)
        ensures
            a.deep_view() == seq!["h"@, "?"@],
    {
        let mut a: Vec<String> = Vec::new();
        a.push("h".to_owned());
        a.push("?".to_owned());
        proof {
            assert(a.deep_view() =~= seq!["h"@, "?"@]);
        }
        a
    }

    fn call(&self, _ctx: &Context, _args: Vec<ParsedArgument>) -> (r: Result<(), Error>) {
        Ok(())
    }

    fn arguments(&self) -> (sigs: Vec<ArgumentSignature>) {
        let sigs: Vec<ArgumentSignature> = Vec::new();
        proof {
            assert(sigs.deep_view() =~= Seq::<ArgumentSignatureView>::empty());
        }
        sigs
    }
}

/// Builds the `help` command; it needs nothing from configuration.
pub struct HelpCommandFactory {}

impl CommandFactory for HelpCommandFactory {
    type Made = HelpCommand;

    fn make(_config: &Config) -> (c: HelpCommand) {
        HelpCommand::new()
    }
}

} // verus!
