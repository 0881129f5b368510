//! The command core: typed argument signatures, single-token parsing, and
//! the validate-then-dispatch contract around a command implementation.
//!
//! Raw message text is tokenized by the surrounding transport layer; this
//! module receives the argument tokens, pairs them positionally with the
//! declared signatures, parses each pair, and only on full success invokes
//! the wrapped command.

use vstd::prelude::*;

pub mod commands;
pub mod numeric;

verus! {

use crate::Id;
use crate::command::numeric::{spec_parse_i64, spec_parse_u64};
use crate::configuration::Config;

/// Mathematical image of a [`ParsingArgError`].
pub struct ParsingArgErrorView {
    pub name: Seq<char>,
    pub type_: ArgumentTypeView,
    pub received: Seq<char>,
}

/// Mathematical image of an [`Error`].
pub enum ErrorView {
    ParsingArgError(ParsingArgErrorView),
    String(Seq<char>),
}

/// Mathematical image of an [`EnumArgumentType`].
pub struct EnumArgumentTypeView {
    pub name: Seq<char>,
    pub variants: Seq<Seq<char>>,
}

/// Mathematical image of an [`ArgumentType`].
pub enum ArgumentTypeView {
    String,
    Number,
    Enum(EnumArgumentTypeView),
    User,
}

/// Mathematical image of an [`ArgumentSignature`].
pub struct ArgumentSignatureView {
    pub name: Seq<char>,
    pub type_: ArgumentTypeView,
}

/// Mathematical image of an [`ArgumentValue`].
pub enum ArgumentValueView {
    String(Seq<char>),
    Number(i64),
    Enum(Seq<char>),
    User(Id),
}

/// Mathematical image of a [`ParsedArgument`].
pub struct ParsedArgumentView {
    pub name: Seq<char>,
    pub value: ArgumentValueView,
}

/// One argument that failed validation: the declared name and type of the
/// offending parameter, and the raw text that was supplied for it.
#[derive(Debug)]
pub struct ParsingArgError {
    pub name: String,
    pub type_: ArgumentType,
    pub received: String,
}

/// A failure reported to whoever dispatched the command: either one
/// argument failed validation, or the command itself reported a
/// message-carrying failure of its own.
#[derive(Debug)]
pub enum Error {
    ParsingArgError(ParsingArgError),
    String(String),
}

impl View for ParsingArgError {
    type V = ParsingArgErrorView;

    open spec fn view(&self) -> ParsingArgErrorView {
        ParsingArgErrorView { name: self.name@, type_: self.type_@, received: self.received@ }
    }
}

impl DeepView for ParsingArgError {
    type V = ParsingArgErrorView;

    open spec fn deep_view(&self) -> ParsingArgErrorView {
        self.view()
    }
}

impl View for Error {
    type V = ErrorView;

    open spec fn view(&self) -> ErrorView {
        match self {
            Error::ParsingArgError(e) => ErrorView::ParsingArgError(e@),
            Error::String(s) => ErrorView::String(s@),
        }
    }
}

impl DeepView for Error {
    type V = ErrorView;

    open spec fn deep_view(&self) -> ErrorView {
        self.view()
    }
}

impl Clone for ParsingArgError {
    fn clone(&self) -> (r: Self)
        ensures
            r@ == self@,
    {
        ParsingArgError {
            name: self.name.clone(),
            type_: self.type_.clone(),
            received: self.received.clone(),
        }
    }
}

impl Clone for Error {
    fn clone(&self) -> (r: Self)
        ensures
            r@ == self@,
    {
        match self {
            Error::ParsingArgError(e) => Error::ParsingArgError(e.clone()),
            Error::String(s) => Error::String(s.clone()),
        }
    }
}

impl Error {
    /// Wraps one offending argument as a validation failure.
    pub fn new_parsing_arg(name: String, type_: ArgumentType, received: String) -> (e: Error)
        ensures
            e@ == ErrorView::ParsingArgError(
                ParsingArgErrorView { name: name@, type_: type_@, received: received@ },
            ),
    {
        Error::ParsingArgError(ParsingArgError { name, type_, received })
    }
}

/// The channel through which a command reaches the outside world (say, to
/// send a reply). The core hands it through untouched.
pub struct Context {}

/// An enumerated argument kind: a display label and the ordered, exact
/// literal spellings a token may take.
#[derive(Debug, PartialEq, Eq)]
pub struct EnumArgumentType {
    pub name: String,
    pub variants: Vec<String>,
}

/// The closed set of value kinds a command parameter may take.
#[derive(Debug, PartialEq, Eq)]
pub enum ArgumentType {
    String,
    Number,
    Enum(EnumArgumentType),
    User,
}

impl View for EnumArgumentType {
    type V = EnumArgumentTypeView;

    open spec fn view(&self) -> EnumArgumentTypeView {
        EnumArgumentTypeView { name: self.name@, variants: self.variants.deep_view() }
    }
}

impl DeepView for EnumArgumentType {
    type V = EnumArgumentTypeView;

    open spec fn deep_view(&self) -> EnumArgumentTypeView {
        self.view()
    }
}

impl View for ArgumentType {
    type V = ArgumentTypeView;

    open spec fn view(&self) -> ArgumentTypeView {
        match self {
            ArgumentType::String => ArgumentTypeView::String,
            ArgumentType::Number => ArgumentTypeView::Number,
            ArgumentType::Enum(e) => ArgumentTypeView::Enum(e@),
            ArgumentType::User => ArgumentTypeView::User,
        }
    }
}

impl DeepView for ArgumentType {
    type V = ArgumentTypeView;

    open spec fn deep_view(&self) -> ArgumentTypeView {
        self.view()
    }
}

impl Clone for EnumArgumentType {
    fn clone(&self) -> (r: Self)
        ensures
            r@ == self@,
    {
        let mut variants: Vec<String> = Vec::new();
        let mut j: usize = 0;
        while j < self.variants.len()
            invariant
                j <= self.variants.len(),
                variants@ == self.variants@.subrange(0, j as int),
            decreases self.variants.len() - j,
        {
            variants.push(self.variants[j].clone());
            j = j + 1;
            proof {
                assert(variants@ =~= self.variants@.subrange(0, j as int));
            }
        }
        proof {
            assert(variants@ =~= self.variants@);
        }
        EnumArgumentType { name: self.name.clone(), variants }
    }
}

impl Clone for ArgumentType {
    fn clone(&self) -> (r: Self)
        ensures
            r@ == self@,
    {
        match self {
            ArgumentType::String => ArgumentType::String,
            ArgumentType::Number => ArgumentType::Number,
            ArgumentType::Enum(e) => ArgumentType::Enum(e.clone()),
            ArgumentType::User => ArgumentType::User,
        }
    }
}

impl ArgumentType {
    /// The kind that accepts any text.
    pub fn string() -> (t: Self)
        ensures
            t@ == ArgumentTypeView::String,
    {
        Self::String
    }

    /// The kind that accepts a signed 64-bit integer token.
    pub fn number() -> (t: Self)
        ensures
            t@ == ArgumentTypeView::Number,
    {
        Self::Number
    }

    /// The kind that accepts exactly the listed literal spellings.
    pub fn enum_(name: String, variants: Vec<String>) -> (t: Self)
        ensures
            t@ == ArgumentTypeView::Enum(
                EnumArgumentTypeView { name: name@, variants: variants.deep_view() },
            ),
    {
        Self::Enum(EnumArgumentType { name, variants })
    }
}

/// One declared command parameter: its name and its expected type, in
/// call-position order.
#[derive(Debug, PartialEq, Eq)]
pub struct ArgumentSignature {
    pub name: String,
    pub type_: ArgumentType,
}

impl View for ArgumentSignature {
    type V = ArgumentSignatureView;

    open spec fn view(&self) -> ArgumentSignatureView {
        ArgumentSignatureView { name: self.name@, type_: self.type_@ }
    }
}

impl DeepView for ArgumentSignature {
    type V = ArgumentSignatureView;

    open spec fn deep_view(&self) -> ArgumentSignatureView {
        self.view()
    }
}

impl Clone for ArgumentSignature {
    fn clone(&self) -> (r: Self)
        ensures
            r@ == self@,
    {
        ArgumentSignature { name: self.name.clone(), type_: self.type_.clone() }
    }
}

impl ArgumentSignature {
    /// Declares one parameter.
    pub fn new(name: String, type_: ArgumentType) -> (s: Self)
        ensures
            s@ == (ArgumentSignatureView { name: name@, type_: type_@ }),
    {
        Self { name, type_ }
    }
}

/// The typed value a token parsed to, tagged by kind.
#[derive(Debug)]
pub enum ArgumentValue {
    String(String),
    Number(i64),
    Enum(String),
    User(Id),
}

impl View for ArgumentValue {
    type V = ArgumentValueView;

    open spec fn view(&self) -> ArgumentValueView {
        match self {
            ArgumentValue::String(s) => ArgumentValueView::String(s@),
            ArgumentValue::Number(n) => ArgumentValueView::Number(*n),
            ArgumentValue::Enum(s) => ArgumentValueView::Enum(s@),
            ArgumentValue::User(id) => ArgumentValueView::User(*id),
        }
    }
}

impl DeepView for ArgumentValue {
    type V = ArgumentValueView;

    open spec fn deep_view(&self) -> ArgumentValueView {
        self.view()
    }
}

impl ArgumentValue {
    pub fn new_string(value: String) -> (v: Self)
        ensures
            v@ == ArgumentValueView::String(value@),
    {
        Self::String(value)
    }

    pub fn new_number(value: i64) -> (v: Self)
        ensures
            v@ == ArgumentValueView::Number(value),
    {
        Self::Number(value)
    }

    pub fn new_enum(value: String) -> (v: Self)
        ensures
            v@ == ArgumentValueView::Enum(value@),
    {
        Self::Enum(value)
    }

    pub fn new_user(value: Id) -> (v: Self)
        ensures
            v@ == ArgumentValueView::User(value),
    {
        Self::User(value)
    }
}

/// A successfully parsed argument: the declared parameter name and the
/// typed value its token produced.
#[derive(Debug)]
pub struct ParsedArgument {
    pub name: String,
    pub value: ArgumentValue,
}

impl View for ParsedArgument {
    type V = ParsedArgumentView;

    open spec fn view(&self) -> ParsedArgumentView {
        ParsedArgumentView { name: self.name@, value: self.value@ }
    }
}

impl DeepView for ParsedArgument {
    type V = ParsedArgumentView;

    open spec fn deep_view(&self) -> ParsedArgumentView {
        self.view()
    }
}

impl ParsedArgument {
    pub fn new(name: String, value: ArgumentValue) -> (p: Self)
        ensures
            p@ == (ParsedArgumentView { name: name@, value: value@ }),
    {
        Self { name, value }
    }
}

/// A usage example for a command: an argument tuple and a description.
#[derive(Debug)]
pub struct Example {
    pub arguments: Vec<String>,
    pub description: String,
}

impl Example {
    pub fn new(arguments: Vec<String>, description: String) -> (e: Self)
        ensures
            e.arguments == arguments,
            e.description == description,
    {
        Self { arguments, description }
    }
}

/// The typed value `token` yields under argument type `type_`, if any:
/// `String` accepts anything, `Number` a signed 64-bit integer literal,
/// `Enum` exactly one of its listed spellings (case-sensitive), and `User`
/// an unsigned 64-bit integer literal.
pub open spec fn spec_parse_value(type_: ArgumentTypeView, token: Seq<char>) -> Option<
    ArgumentValueView,
> {
    match type_ {
        ArgumentTypeView::String => Some(ArgumentValueView::String(token)),
        ArgumentTypeView::Number => match spec_parse_i64(token) {
            Some(n) => Some(ArgumentValueView::Number(n)),
            None => None,
        },
        ArgumentTypeView::Enum(e) => if e.variants.contains(token) {
            Some(ArgumentValueView::Enum(token))
        } else {
            None
        },
        ArgumentTypeView::User => match spec_parse_u64(token) {
            Some(id) => Some(ArgumentValueView::User(id)),
            None => None,
        },
    }
}

/// What parsing one token against one signature yields: the signature's
/// name paired with the typed value, or nothing on any validation failure.
pub open spec fn spec_parse_signature(sig: ArgumentSignatureView, token: Seq<char>) -> Option<
    ParsedArgumentView,
> {
    match spec_parse_value(sig.type_, token) {
        Some(v) => Some(ParsedArgumentView { name: sig.name, value: v }),
        None => None,
    }
}

impl ArgumentSignature {
    /// Parses one raw token against this signature. Returns the typed
    /// argument on success and `None` on any validation failure; no
    /// partial success.
    pub fn parse(&self, input: &str) -> (r: Option<ParsedArgument>)
        ensures
            r.deep_view() == spec_parse_signature(self@, input@),
    {
        let value = match &self.type_ {
            ArgumentType::String => ArgumentValue::new_string(input.to_owned()),
            ArgumentType::Number => {
                match crate::command::numeric::parse_i64_token(input) {
                    Some(n) => ArgumentValue::new_number(n),
                    None => {
                        return None;
                    },
                }
            },
            ArgumentType::Enum(enum_type) => {
                match find_variant(&enum_type.variants, input) {
                    Some(variant) => ArgumentValue::new_enum(variant),
                    None => {
                        return None;
                    },
                }
            },
            ArgumentType::User => {
                match crate::command::numeric::parse_u64_token(input) {
                    Some(id) => ArgumentValue::new_user(id),
                    None => {
                        return None;
                    },
                }
            },
        };
        Some(ParsedArgument::new(self.name.clone(), value))
    }
}

/// Linear scan for the first variant spelled exactly like `input`.
fn find_variant(variants: &Vec<String>, input: &str) -> (r: Option<String>)
    ensures
        match r {
            Some(v) => variants.deep_view().contains(input@) && v@ == input@,
            None => !variants.deep_view().contains(input@),
        },
{
    let needle: String = input.to_owned();
    let mut j: usize = 0;
    while j < variants.len()
        invariant
            j <= variants.len(),
            needle@ == input@,
            forall|k: int| 0 <= k < j ==> variants.deep_view()[k] != input@,
        decreases variants.len() - j,
    {
        if variants[j] == needle {
            proof {
                assert(variants.deep_view()[j as int] == input@);
            }
            return Some(variants[j].clone());
        }
        j = j + 1;
    }
    proof {
        assert(forall|k: int| 0 <= k < variants.deep_view().len()
            ==> variants.deep_view()[k] != input@);
    }
    None
}

/// How many token/signature pairs positional pairing forms: the length of
/// the shorter of the two sequences.
pub open spec fn spec_zip_len(sigs: Seq<ArgumentSignatureView>, tokens: Seq<Seq<char>>) -> int {
    if sigs.len() <= tokens.len() {
        sigs.len() as int
    } else {
        tokens.len() as int
    }
}

/// The validation failure for the pair at index `i`.
pub open spec fn spec_pair_error(
    sigs: Seq<ArgumentSignatureView>,
    tokens: Seq<Seq<char>>,
    i: int,
) -> ErrorView {
    ErrorView::ParsingArgError(
        ParsingArgErrorView { name: sigs[i].name, type_: sigs[i].type_, received: tokens[i] },
    )
}

/// The parsed argument for the pair at index `i`, assuming it parses.
pub open spec fn spec_pair_parsed(
    sigs: Seq<ArgumentSignatureView>,
    tokens: Seq<Seq<char>>,
    i: int,
) -> ParsedArgumentView {
    match spec_parse_signature(sigs[i], tokens[i]) {
        Some(p) => p,
        None => ParsedArgumentView {
            name: Seq::empty(),
            value: ArgumentValueView::String(Seq::empty()),
        },
    }
}

/// What validating `tokens` against `sigs` yields. Each token is paired
/// with the signature at the same index; pairing truncates to the shorter
/// sequence, so extra tokens are silently dropped and unpaired trailing
/// signatures are silently skipped. The first (lowest-index) pair that
/// fails to parse wins; if every pair parses, the parsed arguments come
/// back in declaration order.
pub open spec fn spec_parse_args(
    sigs: Seq<ArgumentSignatureView>,
    tokens: Seq<Seq<char>>,
) -> Result<Seq<ParsedArgumentView>, ErrorView>
    decreases sigs.len(),
{
    if sigs.len() == 0 || tokens.len() == 0 {
        Ok(Seq::empty())
    } else {
        match spec_parse_signature(sigs[0], tokens[0]) {
            None => Err(spec_pair_error(sigs, tokens, 0)),
            Some(p) => match spec_parse_args(sigs.drop_first(), tokens.drop_first()) {
                Ok(rest) => Ok(seq![p] + rest),
                Err(e) => Err(e),
            },
        }
    }
}

/// When every paired token parses, validation succeeds with exactly one
/// parsed argument per pair, in order.
pub proof fn lemma_parse_args_ok(sigs: Seq<ArgumentSignatureView>, tokens: Seq<Seq<char>>)
    requires
        forall|i: int|
            0 <= i < spec_zip_len(sigs, tokens)
                ==> #[trigger] spec_parse_signature(sigs[i], tokens[i]) is Some,
    ensures
        (spec_parse_args(sigs, tokens) matches Ok(pv) && pv.len() == spec_zip_len(sigs, tokens)
            && (forall|i: int|
            0 <= i < pv.len() ==> #[trigger] pv[i] == spec_pair_parsed(sigs, tokens, i))),
    decreases sigs.len(),
{
    if sigs.len() == 0 || tokens.len() == 0 {
    } else {
        assert(spec_parse_signature(sigs[0], tokens[0]) is Some);
        let sigs2 = sigs.drop_first();
        let tokens2 = tokens.drop_first();
        assert forall|i: int| 0 <= i < spec_zip_len(sigs2, tokens2)
            implies #[trigger] spec_parse_signature(sigs2[i], tokens2[i]) is Some by {
            assert(sigs2[i] == sigs[i + 1]);
            assert(tokens2[i] == tokens[i + 1]);
            assert(spec_parse_signature(sigs[i + 1], tokens[i + 1]) is Some);
        }
        lemma_parse_args_ok(sigs2, tokens2);
        let p = spec_pair_parsed(sigs, tokens, 0);
        let rest = (match spec_parse_args(sigs2, tokens2) {
            Ok(v) => v,
            Err(_) => Seq::empty(),
        });
        assert forall|i: int| 0 <= i < (seq![p] + rest).len()
            implies #[trigger] (seq![p] + rest)[i] == spec_pair_parsed(sigs, tokens, i) by {
            if i > 0 {
                assert(rest[i - 1] == spec_pair_parsed(sigs2, tokens2, i - 1));
                assert(sigs2[i - 1] == sigs[i]);
                assert(tokens2[i - 1] == tokens[i]);
            }
        }
    }
}

/// The first pair that fails to parse determines the error: whatever comes
/// after it is never reported.
pub proof fn lemma_parse_args_first_failure(
    sigs: Seq<ArgumentSignatureView>,
    tokens: Seq<Seq<char>>,
    j: int,
)
    requires
        0 <= j < spec_zip_len(sigs, tokens),
        forall|i: int| 0 <= i < j ==> #[trigger] spec_parse_signature(sigs[i], tokens[i]) is Some,
        spec_parse_signature(sigs[j], tokens[j]) is None,
    ensures
        spec_parse_args(sigs, tokens) == Err::<Seq<ParsedArgumentView>, ErrorView>(
            spec_pair_error(sigs, tokens, j),
        ),
    decreases j,
{
    let sigs2 = sigs.drop_first();
    let tokens2 = tokens.drop_first();
    if j == 0 {
    } else {
        assert(spec_parse_signature(sigs[0], tokens[0]) is Some);
        assert forall|i: int| 0 <= i < j - 1
            implies #[trigger] spec_parse_signature(sigs2[i], tokens2[i]) is Some by {
            assert(sigs2[i] == sigs[i + 1]);
            assert(tokens2[i] == tokens[i + 1]);
            assert(spec_parse_signature(sigs[i + 1], tokens[i + 1]) is Some);
        }
        assert(sigs2[j - 1] == sigs[j]);
        assert(tokens2[j - 1] == tokens[j]);
        lemma_parse_args_first_failure(sigs2, tokens2, j - 1);
        assert(spec_pair_error(sigs2, tokens2, j - 1) == spec_pair_error(sigs, tokens, j));
    }
}

/// A command that declares no arguments accepts any supplied tokens: the
/// pairing is empty and validation succeeds with an empty argument list.
pub proof fn lemma_parse_args_no_signatures(tokens: Seq<Seq<char>>)
    ensures
        spec_parse_args(Seq::empty(), tokens) == Ok::<Seq<ParsedArgumentView>, ErrorView>(
            Seq::empty(),
        ),
{
}

/// Validation only ever looks at the pairs the truncating zip forms:
/// tokens and signatures beyond the shorter sequence do not change the
/// outcome.
pub proof fn lemma_parse_args_truncates(sigs: Seq<ArgumentSignatureView>, tokens: Seq<Seq<char>>)
    ensures
        spec_parse_args(sigs, tokens) == spec_parse_args(
            sigs.take(spec_zip_len(sigs, tokens)),
            tokens.take(spec_zip_len(sigs, tokens)),
        ),
    decreases sigs.len(),
{
    let m = spec_zip_len(sigs, tokens);
    let sigst = sigs.take(m);
    let tokenst = tokens.take(m);
    if sigs.len() == 0 || tokens.len() == 0 {
        assert(m == 0);
        assert(sigst.len() == 0);
    } else {
        assert(sigst[0] == sigs[0]);
        assert(tokenst[0] == tokens[0]);
        lemma_parse_args_truncates(sigs.drop_first(), tokens.drop_first());
        assert(spec_zip_len(sigs.drop_first(), tokens.drop_first()) == m - 1);
        assert(sigs.drop_first().take(m - 1) =~= sigst.drop_first());
        assert(tokens.drop_first().take(m - 1) =~= tokenst.drop_first());
        if spec_parse_signature(sigs[0], tokens[0]) is None {
            assert(spec_pair_error(sigs, tokens, 0) == spec_pair_error(sigst, tokenst, 0));
        }
    }
}

/// An enumerated signature accepts exactly its listed spellings: parsing
/// succeeds if and only if the token equals one of the variants, with no
/// case folding and no partial matches, and the selected variant is the
/// token itself.
pub proof fn lemma_enum_accepts_exactly_variants(e: EnumArgumentTypeView, token: Seq<char>)
    ensures
        spec_parse_value(ArgumentTypeView::Enum(e), token) == (if e.variants.contains(token) {
            Some(ArgumentValueView::Enum(token))
        } else {
            None::<ArgumentValueView>
        }),
{
}

/// Whether a parsed value carries the tag its argument type declares.
pub open spec fn spec_tag_matches(type_: ArgumentTypeView, v: ArgumentValueView) -> bool {
    match (type_, v) {
        (ArgumentTypeView::String, ArgumentValueView::String(_)) => true,
        (ArgumentTypeView::Number, ArgumentValueView::Number(_)) => true,
        (ArgumentTypeView::Enum(_), ArgumentValueView::Enum(_)) => true,
        (ArgumentTypeView::User, ArgumentValueView::User(_)) => true,
        _ => false,
    }
}

/// The variant tag of a successfully parsed value always equals the tag of
/// the argument type that produced it, and the parsed argument carries the
/// signature's declared name.
pub proof fn lemma_parse_signature_tag(sig: ArgumentSignatureView, token: Seq<char>)
    ensures
        (match spec_parse_signature(sig, token) {
            Some(p) => p.name == sig.name && spec_tag_matches(sig.type_, p.value),
            None => true,
        }),
{
}

/// Every argument of a successful validation carries its signature's name
/// and a value tagged as that signature's type declares.
pub proof fn lemma_parse_args_tags(sigs: Seq<ArgumentSignatureView>, tokens: Seq<Seq<char>>)
    requires
        forall|i: int|
            0 <= i < spec_zip_len(sigs, tokens)
                ==> #[trigger] spec_parse_signature(sigs[i], tokens[i]) is Some,
    ensures
        (spec_parse_args(sigs, tokens) matches Ok(pv) && pv.len() == spec_zip_len(sigs, tokens)
            && (forall|i: int|
            0 <= i < pv.len() ==> #[trigger] pv[i].name == sigs[i].name && spec_tag_matches(
                sigs[i].type_,
                pv[i].value,
            ))),
{
    lemma_parse_args_ok(sigs, tokens);
    let pv = (match spec_parse_args(sigs, tokens) {
        Ok(v) => v,
        Err(_) => Seq::empty(),
    });
    assert forall|i: int| 0 <= i < pv.len()
        implies #[trigger] pv[i].name == sigs[i].name && spec_tag_matches(
        sigs[i].type_,
        pv[i].value,
    ) by {
        assert(pv[i] == spec_pair_parsed(sigs, tokens, i));
        lemma_parse_signature_tag(sigs[i], tokens[i]);
    }
}

/// A command: its identity, the parameter signatures it declares, and its
/// execution behavior on already-parsed arguments. Any type exposing these
/// qualifies; the dispatcher needs nothing more.
pub trait Command {
    /// The name the registry dispatches on; empty unless overridden.
    open spec fn spec_name(&self) -> Seq<char> {
        Seq::empty()
    }

    /// The declared parameter signatures. A spec function of the
    /// (immutable) command value, so the positional pairing sees the same
    /// sequence on every call. Empty unless overridden.
    open spec fn spec_arguments(&self) -> Seq<ArgumentSignatureView> {
        Seq::empty()
    }

    /// What this command admits as an outcome of `call` on the given
    /// already-parsed arguments; no promise unless overridden.
    open spec fn call_admits(&self, args: Seq<ParsedArgumentView>, r: Result<(), Error>) -> bool {
        true
    }

    fn name(&self) -> (n: String)
        ensures
            n@ == self.spec_name(),
    ;

    /// Runs the command on already-validated, already-typed arguments in
    /// declaration order. `ctx` is its sole channel to any external side
    /// effect.
    fn call(&self, ctx: &Context, args: Vec<ParsedArgument>) -> (r: Result<(), Error>)
        ensures
            self.call_admits(args.deep_view(), r),
    ;

    fn arguments(&self) -> (sigs: Vec<ArgumentSignature>)
        ensures
            sigs.deep_view() == self.spec_arguments(),
    ;

    /// Additional names the command answers to; none unless overridden.
    fn aliases(&self) -> (a: Vec<String>)
        default_ensures
            a.deep_view() == Seq::<Seq<char>>::empty(),
    {
        let a: Vec<String> = Vec::new();
        proof {
            assert(a.deep_view() =~= Seq::<Seq<char>>::empty());
        }
        a
    }

    /// A human-readable description, with a sentinel default.
    fn description(&self) -> (d: String)
        default_ensures
            d@ == "[no description provided]"@,
    {
        "[no description provided]".to_owned()
    }

    /// Usage examples as argument-tuple and description pairs; none unless
    /// overridden.
    fn examples(&self) -> (e: Vec<(String, String)>)
        default_ensures
            e.deep_view() == Seq::<(Seq<char>, Seq<char>)>::empty(),
    {
        let e: Vec<(String, String)> = Vec::new();
        proof {
            assert(e.deep_view() =~= Seq::<(Seq<char>, Seq<char>)>::empty());
        }
        e
    }
}

/// Constructs a command from process configuration: the single
/// construction entry point used when the registry is assembled.
pub trait CommandFactory {
    /// The command type this factory produces.
    type Made: Command;

    fn make(config: &Config) -> Self::Made;
}

/// Owns exactly one command and guards its invocation: raw tokens are
/// validated against the command's declared signatures, and the command
/// runs only when every paired token parsed.
pub struct CommandHolder<C: Command> {
    pub inner: C,
}

impl<C: Command> From<C> for CommandHolder<C> {
    fn from(inner: C) -> (h: Self) {
        CommandHolder { inner }
    }
}

impl<C: Command> vstd::std_specs::convert::FromSpecImpl<C> for CommandHolder<C> {
    open spec fn obeys_from_spec() -> bool {
        true
    }

    open spec fn from_spec(inner: C) -> Self {
        CommandHolder { inner }
    }
}

impl<C: Command> CommandHolder<C> {
    /// Validates the raw tokens against the declared signatures: positional
    /// pairing, truncated to the shorter sequence, first failure wins.
    fn parse_args(&self, args: Vec<String>) -> (r: Result<Vec<ParsedArgument>, Error>)
        ensures
            ({
                let outcome = spec_parse_args(self.inner.spec_arguments(), args.deep_view());
                match r {
                    Ok(parsed) => outcome == Ok::<Seq<ParsedArgumentView>, ErrorView>(
                        parsed.deep_view(),
                    ),
                    Err(e) => outcome == Err::<Seq<ParsedArgumentView>, ErrorView>(e@),
                }
            }),
    {
        let ghost sigsv = self.inner.spec_arguments();
        let ghost tokensv = args.deep_view();
        let expected: Vec<ArgumentSignature> = self.inner.arguments();
        let m: usize = if args.len() < expected.len() {
            args.len()
        } else {
            expected.len()
        };
        proof {
            assert(m == spec_zip_len(sigsv, tokensv));
        }
        let mut parsed: Vec<ParsedArgument> = Vec::new();
        let mut i: usize = 0;
        while i < m
            invariant
                i <= m,
                m == spec_zip_len(sigsv, tokensv),
                m <= args.len(),
                m <= expected.len(),
                sigsv == self.inner.spec_arguments(),
                sigsv == expected.deep_view(),
                tokensv == args.deep_view(),
                forall|k: int|
                    0 <= k < i ==> #[trigger] spec_parse_signature(sigsv[k], tokensv[k]) is Some,
                parsed.deep_view().len() == i,
                forall|k: int|
                    0 <= k < i ==> #[trigger] parsed.deep_view()[k] == spec_pair_parsed(
                        sigsv,
                        tokensv,
                        k,
                    ),
            decreases m - i,
        {
            let ghost parsed_old = parsed.deep_view();
            let sig = &expected[i];
            proof {
                assert(sig.deep_view() == sigsv[i as int]);
                assert(args[i as int]@ == tokensv[i as int]);
            }
            match sig.parse(args[i].as_str()) {
                Some(p) => {
                    parsed.push(p);
                    proof {
                        assert(parsed.deep_view() =~= parsed_old.push(p.deep_view()));
                    }
                },
                None => {
                    proof {
                        lemma_parse_args_first_failure(sigsv, tokensv, i as int);
                    }
                    return Err(
                        Error::new_parsing_arg(sig.name.clone(), sig.type_.clone(), args[i].clone()),
                    );
                },
            }
            i = i + 1;
        }
        proof {
            lemma_parse_args_ok(sigsv, tokensv);
            assert(parsed.deep_view() =~= (match spec_parse_args(sigsv, tokensv) {
                Ok(pv) => pv,
                Err(_) => Seq::empty(),
            }));
        }
        Ok(parsed)
    }

    /// Validates `args` and, only when every paired token parses, invokes
    /// the wrapped command with the parsed arguments in declaration order.
    /// The first validation failure is returned as is and the command is
    /// never invoked; whatever the command itself returns is passed
    /// through unchanged.
    pub fn try_run(&self, args: Vec<String>) -> (r: Result<(), Error>)
        ensures
            (match spec_parse_args(self.inner.spec_arguments(), args.deep_view()) {
                Ok(pv) => self.inner.call_admits(pv, r),
                Err(ev) => r matches Err(e) && e@ == ev,
            }),
    {
        match self.parse_args(args) {
            Ok(parsed) => {
                let ctx = Context {};
                self.inner.call(&ctx, parsed)
            },
            Err(e) => Err(e),
        }
    }
}

} // verus!
