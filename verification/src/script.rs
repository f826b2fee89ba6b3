//! The script engine, `rquickjs`. Nothing is known here of what a script
//! computes: the functions below only run it and hand back what came out.

use vstd::prelude::*;
use rquickjs::{Array, Context, Ctx, Error, Function, Runtime, Value};
use crate::extractors::js_interpreter::{job_may_fail_with, run_job, spend, Job, ScriptError};

verus! {

#[verifier::external_type_specification]
#[verifier::external_body]
pub struct ExRuntime(Runtime);

#[verifier::external_type_specification]
#[verifier::external_body]
pub struct ExContext(Context);

#[verifier::external_type_specification]
#[verifier::external_body]
pub struct ExError(Error);

#[verifier::external_type_specification]
#[verifier::external_body]
pub struct ExCtx<'js>(Ctx<'js>);

#[verifier::external_type_specification]
#[verifier::external_body]
pub struct ExArray<'js>(Array<'js>);

#[verifier::external_type_specification]
#[verifier::external_body]
pub struct ExFunction<'js>(Function<'js>);

#[verifier::external_type_specification]
#[verifier::external_body]
pub struct ExValue<'js>(Value<'js>);

/// `Runtime::new`: a fresh engine, or the error of its allocation.
#[verifier::external_body]
pub(crate) fn new_runtime() -> (r: Result<Runtime, Error>) {
    Runtime::new()
}

/// `Runtime::set_interrupt_handler`: while a script runs, the engine asks the
/// handler at intervals, and stops the script with an exception that the
/// script cannot catch once the handler answers `true`. The handler set here
/// counts down from `budget` through `spend`.
#[verifier::external_body]
pub(crate) fn limit_steps(runtime: &Runtime, budget: u64) {
    let mut left = budget;
    runtime.set_interrupt_handler(Some(Box::new(move || spend(&mut left))));
}

/// `Context::full`: a fresh context of `runtime` with the standard objects.
#[verifier::external_body]
pub(crate) fn full_context(runtime: &Runtime) -> (r: Result<Context, Error>) {
    Context::full(runtime)
}

/// `Context::with`: locks the context and runs `job` in it through `run_job`.
/// What comes back is what `run_job` returned, so an error is one that
/// `run_job` gives for the job.
#[verifier::external_body]
pub(crate) fn in_context(context: &Context, job: &Job<'_>) -> (r: Result<String, ScriptError>)
    ensures
        r matches Err(e) ==> job_may_fail_with(*job, e),
{
    context.with(|ctx| run_job(&ctx, job))
}

/// `Ctx::eval`: evaluates `code` in the global scope. The value is the
/// script's; an exception in the script is an error.
#[verifier::external_body]
pub(crate) fn eval<'js>(ctx: &Ctx<'js>, code: &str) -> (r: Result<Value<'js>, Error>) {
    ctx.eval::<Value<'js>, _>(code.as_bytes())
}

/// `Value::as_string` and `String::to_string`: the text of a value that is a
/// string, `None` for any other value.
#[verifier::external_body]
pub(crate) fn text_of_value<'js>(value: &Value<'js>) -> (r: Option<Result<String, Error>>) {
    value.as_string().map(|s| s.to_string())
}

/// `Array::new`: a fresh empty array of the context.
#[verifier::external_body]
pub(crate) fn new_array<'js>(ctx: &Ctx<'js>) -> (r: Result<Array<'js>, Error>) {
    Array::new(ctx.clone())
}

/// `Array::set`: stores `item` at `index` of the array.
#[verifier::external_body]
pub(crate) fn array_set<'js>(array: &Array<'js>, index: usize, item: &str) -> (r: Result<
    (),
    Error,
>) {
    array.set(index, item)
}

/// `Object::set` on `Ctx::globals`: binds the global `name` to `array`.
#[verifier::external_body]
pub(crate) fn set_global<'js>(ctx: &Ctx<'js>, name: &str, array: Array<'js>) -> (r: Result<
    (),
    Error,
>) {
    ctx.globals().set(name, array)
}

/// `Object::get` on `Ctx::globals`: the global `name`, where it is a function.
#[verifier::external_body]
pub(crate) fn global_function<'js>(ctx: &Ctx<'js>, name: &str) -> (r: Result<
    Function<'js>,
    Error,
>) {
    ctx.globals().get(name)
}

/// `Function::call` with one string argument: what the function returned,
/// where that is a string; an exception in it is an error.
#[verifier::external_body]
pub(crate) fn call_with_text<'js>(function: &Function<'js>, argument: &str) -> (r: Result<
    String,
    Error,
>) {
    function.call((argument,))
}

} // verus!
