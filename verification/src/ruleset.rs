use vstd::prelude::*;

verus! {

/// A point in time, as seconds since the Unix epoch and the nanoseconds after them.
#[derive(Clone, Copy, Debug, PartialEq, Eq)]
pub struct Timestamp {
    pub secs: i64,
    pub nanos: u32,
}

/// A rule as it is stored.
#[derive(Clone, Debug)]
pub struct Rule {
    pub id: u128,
    pub created_at: Timestamp,
    pub updated_at: Timestamp,
    pub name: String,
    pub description: String,
    pub enabled: bool,
    pub position: i32,
    pub expression: String,
    pub actions: Vec<Action>,
    pub project_id: Option<u128>,
    pub ruleset_id: Option<u128>,
}

/// What is done with a request that a rule matches.
#[derive(Clone, Copy, Debug, PartialEq, Eq, Structural)]
pub enum Action {
    Block {},
    Captcha {},
    Allow {},
}

/// Why a rule cannot be used.
#[derive(Clone, Debug)]
pub enum Error {
    Unspecified(String),
    ExpressionIsNotValid(String),
    ParseIntError(String),
    AddrParseError(String),
    InvalidCidrFormatError(String),
}

impl Error {
    /// What the error says.
    pub open spec fn text(&self) -> Seq<char> {
        match self {
            Error::Unspecified(reason) => reason@,
            Error::ExpressionIsNotValid(reason) => "Expression is not valid: "@ + reason@,
            Error::ParseIntError(reason) => reason@,
            Error::AddrParseError(reason) => reason@,
            Error::InvalidCidrFormatError(given) =>
                "invalid CIDR format, expected <network>/<prefix>, got: "@ + given@,
        }
    }

    /// What the error says.
    pub fn message(&self) -> (message: String)
        ensures
            message@ == self.text(),
            self matches Error::Unspecified(reason) ==> message@ == reason@,
            self matches Error::ExpressionIsNotValid(reason) ==> message@
                == "Expression is not valid: "@ + reason@,
            self matches Error::ParseIntError(reason) ==> message@ == reason@,
            self matches Error::AddrParseError(reason) ==> message@ == reason@,
            self matches Error::InvalidCidrFormatError(given) ==> message@
                == "invalid CIDR format, expected <network>/<prefix>, got: "@ + given@,
    {
        match self {
            Error::Unspecified(reason) => reason.clone(),
            Error::ExpressionIsNotValid(reason) => {
                "Expression is not valid: ".to_owned().concat(reason.as_str())
            },
            Error::ParseIntError(reason) => reason.clone(),
            Error::AddrParseError(reason) => reason.clone(),
            Error::InvalidCidrFormatError(given) => {
                "invalid CIDR format, expected <network>/<prefix>, got: ".to_owned().concat(
                    given.as_str(),
                )
            },
        }
    }

    /// Whether the error says that an expression is not valid for the given reason.
    pub open spec fn is_invalid_expression(&self, reason: Seq<char>) -> bool {
        self matches Error::ExpressionIsNotValid(given) && given@ == reason
    }
}

/// What comes of compiling an expression.
#[derive(Debug)]
pub enum CompileOutcome<P> {
    /// The expression is well formed, and this is the program.
    Compiled(P),
    /// The compiler refuses the expression and says why.
    Rejected(String),
    /// The compiler gave up on the expression.
    Panicked,
}

/// Whether `result` is what a caller gets to know of `outcome`.
pub open spec fn is_compile_result<P>(outcome: CompileOutcome<P>, result: Result<P, Error>) -> bool {
    match outcome {
        CompileOutcome::Compiled(program) => result == Ok::<P, Error>(program),
        CompileOutcome::Rejected(reason) => result matches Err(err)
            && err.is_invalid_expression(reason@),
        CompileOutcome::Panicked => result matches Err(err) && err.is_invalid_expression(
            "invalid input"@,
        ),
    }
}

/// The program that was compiled, or why there is none.
pub fn compiled_program<P>(outcome: CompileOutcome<P>) -> (result: Result<P, Error>)
    ensures
        is_compile_result(outcome, result),
        outcome matches CompileOutcome::Compiled(program) ==> result == Ok::<P, Error>(program),
        outcome matches CompileOutcome::Rejected(reason) ==> (result matches Err(
            Error::ExpressionIsNotValid(said),
        ) && said@ == reason@),
        outcome is Panicked ==> (result matches Err(Error::ExpressionIsNotValid(said)) && said@
            == "invalid input"@),
{
    match outcome {
        CompileOutcome::Compiled(program) => Ok(program),
        CompileOutcome::Rejected(reason) => Err(Error::ExpressionIsNotValid(reason)),
        CompileOutcome::Panicked => Err(Error::ExpressionIsNotValid("invalid input".to_owned())),
    }
}

/// Compiles an expression with the given compiler.
pub fn compile_expression<P, F: FnOnce(&str) -> CompileOutcome<P>>(
    expression: &str,
    compile: F,
) -> (result: Result<P, Error>)
    requires
        call_requires(compile, (expression,)),
    ensures
        exists|outcome: CompileOutcome<P>| #[trigger]
            call_ensures(compile, (expression,), outcome) && is_compile_result(outcome, result),
{
    compiled_program(compile(expression))
}

/// The function that the `in` operator stands for.
pub open spec fn in_operator() -> Seq<char> {
    "@in"@
}

/// Whether `name` is among `functions`.
pub open spec fn mentions(functions: Seq<String>, name: Seq<char>) -> bool {
    exists|i: int| 0 <= i < functions.len() && (#[trigger] functions[i])@ == name
}

/// Refuses an expression that calls one of the functions it may not call: the `in` operator.
pub fn check_functions(functions: &Vec<String>) -> (result: Result<(), Error>)
    ensures
        result is Ok <==> !mentions(functions@, in_operator()),
        result matches Err(err) ==> err.is_invalid_expression("unknown operator: in"@),
        result is Err <==> exists|i: int|
            0 <= i < functions@.len() && (#[trigger] functions@[i])@ == "@in"@,
        result matches Err(err) ==> (err matches Error::ExpressionIsNotValid(said) && said@
            == "unknown operator: in"@),
{
    let forbidden = "@in".to_owned();
    for i in 0..functions.len()
        invariant
            forbidden@ == in_operator(),
            forall|j: int| 0 <= j < i ==> (#[trigger] functions[j])@ != in_operator(),
    {
        if functions[i] == forbidden {
            return Err(Error::ExpressionIsNotValid("unknown operator: in".to_owned()));
        }
    }
    Ok(())
}

/// Whether `result` is what comes of validating an expression that is not empty, where compiling it
/// comes to `outcome` and `called` are the functions that the program calls.
pub open spec fn is_validation_result<P>(
    outcome: CompileOutcome<P>,
    called: Seq<String>,
    result: Result<(), Error>,
) -> bool {
    match outcome {
        CompileOutcome::Compiled(_) => if mentions(called, in_operator()) {
            result matches Err(err) && err.is_invalid_expression("unknown operator: in"@)
        } else {
            result is Ok
        },
        CompileOutcome::Rejected(reason) => result matches Err(err) && err.is_invalid_expression(
            reason@,
        ),
        CompileOutcome::Panicked => result matches Err(err) && err.is_invalid_expression(
            "invalid input"@,
        ),
    }
}

/// Checks that an expression is not empty, that the given compiler takes it, and that it calls no
/// function that it may not call. `functions` gives the names of the functions that a program
/// calls.
pub fn validate_expression<P, F: FnOnce(&str) -> CompileOutcome<P>, G: FnOnce(&P) -> Vec<String>>(
    expression: &str,
    compile: F,
    functions: G,
) -> (result: Result<(), Error>)
    requires
        expression@.len() > 0 ==> call_requires(compile, (expression,)),
        forall|program: P|
            expression@.len() > 0 && call_ensures(
                compile,
                (expression,),
                CompileOutcome::Compiled(program),
            ) ==> #[trigger] call_requires(functions, (&program,)),
    ensures
        expression@.len() == 0 ==> (result matches Err(err) && err.is_invalid_expression(
            "expression is empty"@,
        )),
        expression@.len() == 0 ==> (result matches Err(Error::ExpressionIsNotValid(said)) && said@
            == "expression is empty"@),
        expression@.len() > 0 && result is Ok ==> exists|program: P, called: Vec<String>|
            {
                &&& call_ensures(compile, (expression,), CompileOutcome::Compiled(program))
                &&& #[trigger] call_ensures(functions, (&program,), called)
                &&& forall|i: int| 0 <= i < called@.len() ==> (#[trigger] called@[i])@ != "@in"@
            },
        expression@.len() > 0 ==> exists|outcome: CompileOutcome<P>, called: Vec<String>|
            {
                &&& call_ensures(compile, (expression,), outcome)
                &&& outcome matches CompileOutcome::Compiled(program) ==> call_ensures(
                    functions,
                    (&program,),
                    called,
                )
                &&& #[trigger] is_validation_result(outcome, called@, result)
            },
{
    if expression.is_empty() {
        return Err(Error::ExpressionIsNotValid("expression is empty".to_owned()));
    }
    let outcome = compile(expression);
    let ghost seen = outcome;
    match compiled_program(outcome) {
        Ok(program) => {
            let called = functions(&program);
            let result = check_functions(&called);
            assert(is_validation_result(seen, called@, result));
            result
        },
        Err(err) => {
            let ghost called: Vec<String> = arbitrary();
            assert(is_validation_result(seen, called@, Err::<(), Error>(err)));
            Err(err)
        },
    }
}

/// An expression whose program calls the `in` operator never passes, wherever among its calls that
/// one stands.
pub proof fn law_in_operator_never_passes<P>(
    program: P,
    called: Seq<String>,
    at: int,
    result: Result<(), Error>,
)
    requires
        0 <= at < called.len(),
        called[at]@ == "@in"@,
        is_validation_result(CompileOutcome::Compiled(program), called, result),
    ensures
        result matches Err(Error::ExpressionIsNotValid(said)) && said@ == "unknown operator: in"@,
{
    assert(mentions(called, in_operator()));
}

/// An expression that compiles passes whatever else its program calls.
pub proof fn law_other_functions_pass<P>(
    program: P,
    called: Seq<String>,
    result: Result<(), Error>,
)
    requires
        forall|i: int| 0 <= i < called.len() ==> (#[trigger] called[i])@ != "@in"@,
        is_validation_result(CompileOutcome::Compiled(program), called, result),
    ensures
        result is Ok,
{
}

/// An expression that the compiler does not take never passes, and the reason is the one that the
/// compiler gives. What it would call plays no part.
pub proof fn law_uncompiled_never_passes<P>(
    outcome: CompileOutcome<P>,
    called: Seq<String>,
    validated: Result<(), Error>,
    compiled: Result<P, Error>,
)
    requires
        outcome !is Compiled,
        is_validation_result(outcome, called, validated),
        is_compile_result(outcome, compiled),
    ensures
        validated matches Err(Error::ExpressionIsNotValid(said)) && (compiled matches Err(
            Error::ExpressionIsNotValid(also),
        ) && said@ == also@),
        outcome matches CompileOutcome::Rejected(reason) ==> (validated matches Err(
            Error::ExpressionIsNotValid(said),
        ) && said@ == reason@),
        outcome is Panicked ==> (validated matches Err(Error::ExpressionIsNotValid(said)) && said@
            == "invalid input"@),
{
}

/// An expression that the compiler takes compiles to that very program.
pub proof fn law_compiled_is_the_program<P>(program: P, result: Result<P, Error>)
    requires
        is_compile_result(CompileOutcome::Compiled(program), result),
    ensures
        result matches Ok(given) && given == program,
{
}

/// In which order a program calls its functions, and how often, does not decide whether it may call
/// them: two lists with the same names are both refused or both let through. A longer list is
/// refused wherever a part of it is.
pub proof fn law_order_of_functions_plays_no_part(
    first: Vec<String>,
    second: Vec<String>,
    of_first: Result<(), Error>,
    of_second: Result<(), Error>,
)
    requires
        call_ensures(check_functions, (&first,), of_first),
        call_ensures(check_functions, (&second,), of_second),
        forall|i: int|
            0 <= i < first@.len() ==> exists|j: int|
                0 <= j < second@.len() && (#[trigger] second@[j])@ == (#[trigger] first@[i])@,
    ensures
        of_first is Err ==> of_second is Err,
{
    if of_first is Err {
        let i = choose|i: int| 0 <= i < first@.len() && (#[trigger] first@[i])@ == "@in"@;
        let j = choose|j: int| 0 <= j < second@.len() && (#[trigger] second@[j])@ == first@[i]@;
        assert(second@[j]@ == "@in"@);
    }
}

/// An expression that passes validation compiles, if the compiler comes to the same again.
pub proof fn law_valid_expression_compiles<P>(
    outcome: CompileOutcome<P>,
    called: Seq<String>,
    validated: Result<(), Error>,
    compiled: Result<P, Error>,
)
    requires
        is_validation_result(outcome, called, validated),
        is_compile_result(outcome, compiled),
    ensures
        validated is Ok ==> compiled is Ok,
        compiled is Ok && !mentions(called, in_operator()) ==> validated is Ok,
{
}

} // verus!
