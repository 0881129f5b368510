use std::cell::{Cell, RefCell};

use turbo_kubb::command::{
    ArgumentSignature, ArgumentType, ArgumentValue, Command, CommandHolder, Context, Error,
    ParsedArgument,
};
use turbo_kubb::command::commands::help::{HelpCommand, HelpCommandFactory};
use turbo_kubb::command::CommandFactory;
use turbo_kubb::configuration::Config;

enum Kind {
    Text,
    Num,
    Usr,
    Choice(Vec<String>),
}

fn build_sig(name: &str, kind: &Kind) -> ArgumentSignature {
    let type_ = match kind {
        Kind::Text => ArgumentType::string(),
        Kind::Num => ArgumentType::number(),
        Kind::Usr => ArgumentType::User,
        Kind::Choice(vs) => ArgumentType::enum_(name.to_string(), vs.clone()),
    };
    ArgumentSignature::new(name.to_string(), type_)
}

/// A command that records each invocation and a rendering of the arguments
/// it received.
struct RecordingCommand {
    declared: Vec<(String, Kind)>,
    invoked: Cell<usize>,
    seen: RefCell<Vec<String>>,
}

impl RecordingCommand {
    fn new(declared: Vec<(String, Kind)>) -> Self {
        RecordingCommand { declared, invoked: Cell::new(0), seen: RefCell::new(Vec::new()) }
    }
}

impl Command for RecordingCommand {
    fn name(&self) -> String {
        "rec".to_string()
    }

    fn call(&self, _ctx: &Context, args: Vec<ParsedArgument>) -> Result<(), Error> {
        self.invoked.set(self.invoked.get() + 1);
        let mut seen = self.seen.borrow_mut();
        seen.clear();
        for a in args {
            let rendered = match a.value {
                ArgumentValue::String(s) => format!("S:{}={}", a.name, s),
                ArgumentValue::Number(n) => format!("N:{}={}", a.name, n),
                ArgumentValue::Enum(v) => format!("E:{}={}", a.name, v),
                ArgumentValue::User(u) => format!("U:{}={}", a.name, u),
            };
            seen.push(rendered);
        }
        Ok(())
    }

    fn arguments(&self) -> Vec<ArgumentSignature> {
        self.declared.iter().map(|(n, k)| build_sig(n, k)).collect()
    }
}

/// A command that must never run: reaching `call` fails the test.
struct ForbiddenCommand {
    declared: Vec<(String, Kind)>,
}

impl Command for ForbiddenCommand {
    fn name(&self) -> String {
        "forbidden".to_string()
    }

    fn call(&self, _ctx: &Context, _args: Vec<ParsedArgument>) -> Result<(), Error> {
        panic!("call must not be invoked when a token fails to parse");
    }

    fn arguments(&self) -> Vec<ArgumentSignature> {
        self.declared.iter().map(|(n, k)| build_sig(n, k)).collect()
    }
}

/// A command whose own failure must pass through the holder verbatim.
struct FailingCommand;

impl Command for FailingCommand {
    fn name(&self) -> String {
        "failing".to_string()
    }

    fn call(&self, _ctx: &Context, _args: Vec<ParsedArgument>) -> Result<(), Error> {
        Err(Error::String("domain failure".to_string()))
    }

    fn arguments(&self) -> Vec<ArgumentSignature> {
        Vec::new()
    }
}

fn tokens(raw: &[&str]) -> Vec<String> {
    raw.iter().map(|s| s.to_string()).collect()
}

#[test]
fn extra_tokens_are_silently_dropped() {
    let cmd = RecordingCommand::new(vec![("n".to_string(), Kind::Num)]);
    let holder = CommandHolder { inner: cmd };
    let r = holder.try_run(tokens(&["5", "ignored"]));
    assert!(r.is_ok());
    assert_eq!(holder.inner.invoked.get(), 1);
    assert_eq!(*holder.inner.seen.borrow(), vec!["N:n=5".to_string()]);
}

#[test]
fn unpaired_signatures_are_silently_skipped() {
    let cmd = RecordingCommand::new(vec![
        ("a".to_string(), Kind::Num),
        ("b".to_string(), Kind::Num),
        ("c".to_string(), Kind::Num),
    ]);
    let holder = CommandHolder { inner: cmd };
    let r = holder.try_run(tokens(&["11"]));
    assert!(r.is_ok());
    assert_eq!(holder.inner.invoked.get(), 1);
    assert_eq!(*holder.inner.seen.borrow(), vec!["N:a=11".to_string()]);
}

#[test]
fn first_failure_wins() {
    let cmd = ForbiddenCommand {
        declared: vec![("a".to_string(), Kind::Num), ("b".to_string(), Kind::Num)],
    };
    let holder = CommandHolder { inner: cmd };
    let r = holder.try_run(tokens(&["x", "y"]));
    match r {
        Err(Error::ParsingArgError(e)) => {
            assert_eq!(e.name, "a");
            assert_eq!(e.received, "x");
            assert!(matches!(e.type_, ArgumentType::Number));
        }
        _ => panic!("expected the failure for the first argument"),
    }
}

#[test]
fn later_failure_reports_the_failing_argument() {
    let cmd = ForbiddenCommand {
        declared: vec![("a".to_string(), Kind::Num), ("b".to_string(), Kind::Usr)],
    };
    let holder = CommandHolder { inner: cmd };
    let r = holder.try_run(tokens(&["3", "-1"]));
    match r {
        Err(Error::ParsingArgError(e)) => {
            assert_eq!(e.name, "b");
            assert_eq!(e.received, "-1");
            assert!(matches!(e.type_, ArgumentType::User));
        }
        _ => panic!("expected the failure for the second argument"),
    }
}

#[test]
fn zero_declared_arguments_accept_any_tokens() {
    let cmd = RecordingCommand::new(Vec::new());
    let holder = CommandHolder { inner: cmd };
    let r = holder.try_run(tokens(&["lots", "of", "junk"]));
    assert!(r.is_ok());
    assert_eq!(holder.inner.invoked.get(), 1);
    assert!(holder.inner.seen.borrow().is_empty());
}

#[test]
fn call_never_runs_when_a_token_fails_to_parse() {
    let cmd = ForbiddenCommand {
        declared: vec![
            ("ok".to_string(), Kind::Text),
            ("color".to_string(), Kind::Choice(vec!["red".to_string(), "green".to_string()])),
        ],
    };
    let holder = CommandHolder { inner: cmd };
    let r = holder.try_run(tokens(&["fine", "purple"]));
    assert!(matches!(r, Err(Error::ParsingArgError(_))));
}

#[test]
fn command_failure_passes_through_verbatim() {
    let holder = CommandHolder { inner: FailingCommand };
    let r = holder.try_run(tokens(&["whatever"]));
    match r {
        Err(Error::String(msg)) => assert_eq!(msg, "domain failure"),
        _ => panic!("the command's own error must pass through"),
    }
}

#[test]
fn enum_token_dispatches_with_selected_variant() {
    let cmd = RecordingCommand::new(vec![(
        "mode".to_string(),
        Kind::Choice(vec!["fast".to_string(), "slow".to_string()]),
    )]);
    let holder = CommandHolder { inner: cmd };
    let r = holder.try_run(tokens(&["slow"]));
    assert!(r.is_ok());
    assert_eq!(*holder.inner.seen.borrow(), vec!["E:mode=slow".to_string()]);
}

#[test]
fn holder_from_wraps_the_command() {
    let holder: CommandHolder<HelpCommand> = CommandHolder::from(HelpCommand::new());
    assert_eq!(holder.inner.name(), "help");
}

#[test]
fn help_command_identity_and_defaults() {
    let help = HelpCommandFactory::make(&Config::new());
    assert_eq!(help.name(), "help");
    assert_eq!(help.aliases(), vec!["h".to_string(), "?".to_string()]);
    assert_eq!(help.description(), "[no description provided]");
    assert!(help.examples().is_empty());
    assert!(help.arguments().is_empty());
}

#[test]
fn help_command_accepts_any_tokens() {
    let holder = CommandHolder { inner: HelpCommand::new() };
    assert!(holder.try_run(tokens(&["some", "arguments"])).is_ok());
    assert!(holder.try_run(Vec::new()).is_ok());
}

#[test]
fn default_metadata_on_a_plain_command() {
    let cmd = RecordingCommand::new(Vec::new());
    assert!(cmd.aliases().is_empty());
    assert_eq!(cmd.description(), "[no description provided]");
    assert!(cmd.examples().is_empty());
}
