//! Runs the transformation functions of a player script in a script engine.

use vstd::prelude::*;
use rquickjs::Ctx;
use crate::pattern::{
    all_captures,
    capture,
    captures,
    escape,
    escaped,
    first_capture,
    group,
    take_group,
};
use crate::script;
use crate::text::{chars_of, joined, owned, pieces, same_text, split, text_of, texts, trim, trimmed};

verus! {

/// Why a script did not give a result.
#[derive(Debug, Clone, Copy, PartialEq, Eq)]
pub enum ScriptError {
    /// The script engine could not be set up.
    Engine,
    /// The player script itself failed when it was loaded.
    Load,
    /// A global array could not be bound.
    Global,
    /// The script defines no function of the name asked for.
    MissingFunction,
    /// The function failed, or did not return a string.
    Call,
    /// The text of the script holds no definition of the function.
    NoDefinition,
}

impl ScriptError {
    /// The error in words.
    pub open spec fn text(self) -> Seq<char> {
        match self {
            ScriptError::Engine => "the script engine could not be set up"@,
            ScriptError::Load => "failed to evaluate the script"@,
            ScriptError::Global => "a global array could not be bound"@,
            ScriptError::MissingFunction => "the function was not found in the script"@,
            ScriptError::Call => "the function failed or returned no text"@,
            ScriptError::NoDefinition => "could not find the definition of the function"@,
        }
    }

    /// The error in words.
    pub fn message(&self) -> (r: String)
        ensures
            r@ == self.text(),
    {
        match self {
            ScriptError::Engine => owned("the script engine could not be set up"),
            ScriptError::Load => owned("failed to evaluate the script"),
            ScriptError::Global => owned("a global array could not be bound"),
            ScriptError::MissingFunction => owned("the function was not found in the script"),
            ScriptError::Call => owned("the function failed or returned no text"),
            ScriptError::NoDefinition => owned("could not find the definition of the function"),
        }
    }
}

/// How often a running script is let go on before it is stopped, where
/// nothing else is asked for. The engine asks once in some ten thousand steps.
pub const STEP_BUDGET: u64 = 20000;

/// Takes one from what is left of a budget, and says whether nothing was left.
pub fn spend(left: &mut u64) -> (spent: bool)
    ensures
        spent == (*old(left) == 0),
        *final(left) == if *old(left) == 0 {
            0
        } else {
            *old(left) - 1
        },
{
    if *left == 0 {
        true
    } else {
        *left = *left - 1;
        false
    }
}

/// A list of global arrays, each a name and its items.
pub type Globals = Vec<(String, Vec<String>)>;

/// One piece of work for a context of the script engine.
pub(crate) enum Job<'a> {
    /// Load `script`, bind `globals`, and call `function` on `argument`.
    Call { script: &'a str, globals: Option<&'a Globals>, function: &'a str, argument: &'a str },
    /// Evaluate `code` and read its value as text.
    Evaluate { code: &'a str },
}

/// The text without its NUL characters.
pub open spec fn without_nul(text: Seq<char>) -> Seq<char>
    decreases text.len(),
{
    if text.len() == 0 {
        text
    } else if text.last() == '\0' {
        without_nul(text.drop_last())
    } else {
        without_nul(text.drop_last()).push(text.last())
    }
}

/// The pattern of a global array of string literals: `var name = ["a", "b"]`.
pub const GLOBAL_ARRAY_PATTERN: &'static str =
    r#"var\s+([a-zA-Z_$][a-zA-Z0-9_$]*)\s*=\s*\[((?:[^"\[\]]*"[^"]*"[^"\[\]]*,?\s*)*)\]"#;

/// The pattern of one string literal in double quotes.
pub const STRING_PATTERN: &'static str = r#""([^"]*)""#;

/// The first group of each match, where it took part.
pub open spec fn first_groups(matches: Seq<Seq<Option<Seq<char>>>>) -> Seq<Seq<char>>
    decreases matches.len(),
{
    if matches.len() == 0 {
        Seq::empty()
    } else {
        match group(matches.last(), 1) {
            Some(item) => first_groups(matches.drop_last()).push(item),
            None => first_groups(matches.drop_last()),
        }
    }
}

/// A list of global arrays as plain values.
pub open spec fn globals_view(globals: Seq<(String, Vec<String>)>) -> Seq<
    (Seq<char>, Seq<Seq<char>>),
> {
    globals.map_values(|entry: (String, Vec<String>)| (entry.0@, texts(entry.1@)))
}

/// The position of the array called `name` in the list.
pub open spec fn position_of(globals: Seq<(Seq<char>, Seq<Seq<char>>)>, name: Seq<char>) -> Option<
    int,
>
    decreases globals.len(),
{
    if globals.len() == 0 {
        None
    } else {
        match position_of(globals.drop_last(), name) {
            Some(at) => Some(at),
            None => if globals.last().0 == name {
                Some(globals.len() - 1)
            } else {
                None
            },
        }
    }
}

/// The list with the array `name` set to `items`: in the place of an array of
/// that name where there is one, at the end otherwise.
pub open spec fn with_global(
    globals: Seq<(Seq<char>, Seq<Seq<char>>)>,
    name: Seq<char>,
    items: Seq<Seq<char>>,
) -> Seq<(Seq<char>, Seq<Seq<char>>)> {
    match position_of(globals, name) {
        Some(at) => globals.update(at, (name, items)),
        None => globals.push((name, items)),
    }
}

/// Whether no two arrays of the list have one name.
pub open spec fn distinct_names(globals: Seq<(Seq<char>, Seq<Seq<char>>)>) -> bool {
    forall|i: int, j: int| 0 <= i < j < globals.len() ==> globals[i].0 != globals[j].0
}

/// The position found holds the name, and where none is found no array has
/// the name.
pub proof fn lemma_position_of(globals: Seq<(Seq<char>, Seq<Seq<char>>)>, name: Seq<char>)
    ensures
        match position_of(globals, name) {
            Some(at) => 0 <= at < globals.len() && globals[at].0 == name,
            None => forall|i: int| 0 <= i < globals.len() ==> globals[i].0 != name,
        },
    decreases globals.len(),
{
    if globals.len() > 0 {
        lemma_position_of(globals.drop_last(), name);
        match position_of(globals.drop_last(), name) {
            Some(at) => {
                assert(globals.drop_last()[at] == globals[at]);
            },
            None => {
                assert forall|i: int| 0 <= i < globals.len() - 1 implies globals[i].0 != name by {
                    assert(globals.drop_last()[i] == globals[i]);
                }
            },
        }
    }
}

/// Setting an array keeps the names of the list distinct.
pub proof fn lemma_with_global_distinct(
    globals: Seq<(Seq<char>, Seq<Seq<char>>)>,
    name: Seq<char>,
    items: Seq<Seq<char>>,
)
    requires
        distinct_names(globals),
    ensures
        distinct_names(with_global(globals, name, items)),
{
    lemma_position_of(globals, name);
}

/// The arrays that a run of matches defines have distinct names.
pub proof fn lemma_globals_distinct(matches: Seq<Seq<Option<Seq<char>>>>)
    ensures
        distinct_names(globals_from(matches)),
    decreases matches.len(),
{
    if matches.len() > 0 {
        lemma_globals_distinct(matches.drop_last());
        match (group(matches.last(), 1), group(matches.last(), 2)) {
            (Some(name), Some(list)) => {
                lemma_with_global_distinct(
                    globals_from(matches.drop_last()),
                    name,
                    first_groups(all_captures(STRING_PATTERN@, list)),
                );
            },
            _ => {},
        }
    }
}

/// The global arrays that a run of matches of the array pattern defines: each
/// match with a name and a list that holds a string literal or more sets the
/// array of that name, a later match replacing an earlier one.
pub open spec fn globals_from(matches: Seq<Seq<Option<Seq<char>>>>) -> Seq<
    (Seq<char>, Seq<Seq<char>>),
>
    decreases matches.len(),
{
    if matches.len() == 0 {
        Seq::empty()
    } else {
        let before = globals_from(matches.drop_last());
        match (group(matches.last(), 1), group(matches.last(), 2)) {
            (Some(name), Some(list)) => {
                let items = first_groups(all_captures(STRING_PATTERN@, list));
                if items.len() > 0 {
                    with_global(before, name, items)
                } else {
                    before
                }
            },
            _ => before,
        }
    }
}

/// The global arrays of string literals that the script defines.
pub open spec fn globals_of(script: Seq<char>) -> Seq<(Seq<char>, Seq<Seq<char>>)> {
    globals_from(all_captures(GLOBAL_ARRAY_PATTERN@, script))
}

/// The pattern of the definition of the function `name`, body included.
pub open spec fn definition_pattern(name: Seq<char>) -> Seq<char> {
    r"function\s+"@ + escaped(name) + r"\s*\([^)]*\)\s*\{[^}]*\}"@
}

/// The pattern of the head of the definition of the function `name`, with the
/// list of its parameters in group 1.
pub open spec fn parameters_pattern(name: Seq<char>) -> Seq<char> {
    r"function\s+"@ + escaped(name) + r"\s*\(([^)]*)\)"@
}

/// The names in a run of pieces: each piece trimmed, the empty ones left out.
pub open spec fn names_in(parts: Seq<Seq<char>>) -> Seq<Seq<char>>
    decreases parts.len(),
{
    if parts.len() == 0 {
        Seq::empty()
    } else if trimmed(parts.last()).len() == 0 {
        names_in(parts.drop_last())
    } else {
        names_in(parts.drop_last()).push(trimmed(parts.last()))
    }
}

/// The names of the parameters in a list separated by commas.
pub open spec fn parameter_names(list: Seq<char>) -> Seq<Seq<char>> {
    names_in(pieces(list, ','))
}

/// The definition of the function `name` in the script: the names of its
/// parameters and the text of the definition.
pub open spec fn function_code(script: Seq<char>, name: Seq<char>) -> Option<
    (Seq<Seq<char>>, Seq<char>),
> {
    match first_capture(definition_pattern(name), script, 0) {
        Some(code) => Some(
            (
                match first_capture(parameters_pattern(name), code, 1) {
                    Some(list) => parameter_names(list),
                    None => Seq::empty(),
                },
                code,
            ),
        ),
        None => None,
    }
}

/// The names of the parameters in a list separated by commas.
pub fn split_parameters(list: &str) -> (r: Vec<String>)
    ensures
        texts(r@) == parameter_names(list@),
{
    let parts = split(list, ',');
    let mut names: Vec<String> = Vec::new();
    let mut i: usize = 0;
    proof {
        assert(texts(parts@).take(0) =~= Seq::empty());
        assert(texts(names@) =~= Seq::empty());
    }
    while i < parts.len()
        invariant
            i <= parts.len(),
            texts(names@) == names_in(texts(parts@).take(i as int)),
        decreases parts.len() - i,
    {
        proof {
            assert(texts(parts@).take(i + 1).drop_last() =~= texts(parts@).take(i as int));
            assert(texts(parts@).take(i + 1).last() == parts[i as int]@);
        }
        let ghost before = texts(names@);
        let name = trim(parts[i].as_str());
        if !name.as_str().is_empty() {
            let ghost view = name@;
            names.push(name);
            assert(texts(names@) =~= before.push(view));
        }
        i += 1;
    }
    proof {
        assert(texts(parts@).take(parts.len() as int) =~= texts(parts@));
    }
    names
}

fn collect_first_groups(matches: &Vec<Vec<Option<String>>>) -> (r: Vec<String>)
    ensures
        texts(r@) == first_groups(matches.deep_view()),
{
    let mut items: Vec<String> = Vec::new();
    let mut i: usize = 0;
    proof {
        assert(matches.deep_view().take(0) =~= Seq::empty());
        assert(texts(items@) =~= Seq::empty());
    }
    while i < matches.len()
        invariant
            i <= matches.len(),
            texts(items@) == first_groups(matches.deep_view().take(i as int)),
        decreases matches.len() - i,
    {
        proof {
            assert(matches.deep_view().take(i + 1).drop_last() =~= matches.deep_view().take(
                i as int,
            ));
            assert(matches.deep_view().take(i + 1).last() == matches[i as int].deep_view());
        }
        let ghost before = items@;
        match take_group(&matches[i], 1) {
            Some(item) => {
                items.push(item);
                assert(texts(items@) =~= texts(before).push(item@));
            },
            None => {},
        }
        i += 1;
    }
    proof {
        assert(matches.deep_view().take(matches.len() as int) =~= matches.deep_view());
    }
    items
}

fn find_global(globals: &Globals, name: &str) -> (r: Option<usize>)
    ensures
        match r {
            Some(at) => position_of(globals_view(globals@), name@) == Some(at as int) && at
                < globals.len(),
            None => position_of(globals_view(globals@), name@) is None,
        },
{
    let mut i: usize = 0;
    proof {
        assert(globals_view(globals@).take(0) =~= Seq::empty());
    }
    while i < globals.len()
        invariant
            i <= globals.len(),
            position_of(globals_view(globals@).take(i as int), name@) is None,
        decreases globals.len() - i,
    {
        proof {
            assert(globals_view(globals@).take(i + 1).drop_last() =~= globals_view(globals@).take(
                i as int,
            ));
        }
        if same_text(globals[i].0.as_str(), name) {
            proof {
                lemma_position_prefix(globals_view(globals@), name@, i + 1);
            }
            return Some(i);
        }
        i += 1;
    }
    proof {
        assert(globals_view(globals@).take(globals.len() as int) =~= globals_view(globals@));
    }
    None
}

/// A position found in the first `k` entries is the position in the whole list.
proof fn lemma_position_prefix(globals: Seq<(Seq<char>, Seq<Seq<char>>)>, name: Seq<char>, k: int)
    requires
        0 <= k <= globals.len(),
        position_of(globals.take(k), name) is Some,
    ensures
        position_of(globals, name) == position_of(globals.take(k), name),
    decreases globals.len() - k,
{
    if k == globals.len() {
        assert(globals.take(k) =~= globals);
    } else {
        assert(globals.take(k + 1).drop_last() =~= globals.take(k));
        lemma_position_prefix(globals, name, k + 1);
    }
}

fn set_global(globals: &mut Globals, name: String, items: Vec<String>)
    ensures
        globals_view(final(globals)@) == with_global(
            globals_view(old(globals)@),
            name@,
            texts(items@),
        ),
{
    match find_global(globals, name.as_str()) {
        Some(at) => {
            globals[at] = (name, items);
            assert(globals_view(globals@) =~= with_global(
                globals_view(old(globals)@),
                name@,
                texts(items@),
            ));
        },
        None => {
            globals.push((name, items));
            assert(globals_view(globals@) =~= with_global(
                globals_view(old(globals)@),
                name@,
                texts(items@),
            ));
        },
    }
}

/// The global arrays of string literals that `script` defines, each name
/// once, with the items of its last definition.
pub fn scan_globals(script: &str) -> (r: Globals)
    ensures
        globals_view(r@) == globals_of(script@),
        distinct_names(globals_view(r@)),
{
    let matches = captures(GLOBAL_ARRAY_PATTERN, script);
    proof {
        lemma_globals_distinct(matches.deep_view());
    }
    let mut globals: Globals = Vec::new();
    let mut i: usize = 0;
    proof {
        assert(matches.deep_view().take(0) =~= Seq::empty());
        assert(globals_view(globals@) =~= Seq::empty());
    }
    while i < matches.len()
        invariant
            i <= matches.len(),
            globals_view(globals@) == globals_from(matches.deep_view().take(i as int)),
        decreases matches.len() - i,
    {
        proof {
            assert(matches.deep_view().take(i + 1).drop_last() =~= matches.deep_view().take(
                i as int,
            ));
            assert(matches.deep_view().take(i + 1).last() == matches[i as int].deep_view());
        }
        match (take_group(&matches[i], 1), take_group(&matches[i], 2)) {
            (Some(name), Some(list)) => {
                let literals = captures(STRING_PATTERN, list.as_str());
                let items = collect_first_groups(&literals);
                if items.len() > 0 {
                    set_global(&mut globals, name, items);
                }
            },
            _ => {},
        }
        i += 1;
    }
    proof {
        assert(matches.deep_view().take(matches.len() as int) =~= matches.deep_view());
    }
    globals
}

fn copy_texts(list: &Vec<String>) -> (r: Vec<String>)
    ensures
        texts(r@) == texts(list@),
{
    let mut r: Vec<String> = Vec::new();
    let mut i: usize = 0;
    while i < list.len()
        invariant
            i <= list.len(),
            texts(r@) == texts(list@).take(i as int),
        decreases list.len() - i,
    {
        let ghost before = texts(r@);
        let item = list[i].clone();
        r.push(item);
        assert(texts(r@) =~= before.push(list@[i as int]@));
        i += 1;
        assert(texts(r@) =~= texts(list@).take(i as int));
    }
    assert(texts(list@).take(list.len() as int) =~= texts(list@));
    r
}

fn copy_globals(globals: &Globals) -> (r: Globals)
    ensures
        globals_view(r@) == globals_view(globals@),
{
    let mut r: Globals = Vec::new();
    let mut i: usize = 0;
    while i < globals.len()
        invariant
            i <= globals.len(),
            globals_view(r@) == globals_view(globals@).take(i as int),
        decreases globals.len() - i,
    {
        let ghost before = globals_view(r@);
        let name = globals[i].0.clone();
        let items = copy_texts(&globals[i].1);
        r.push((name, items));
        assert(globals_view(r@) =~= before.push(globals_view(globals@)[i as int]));
        i += 1;
        assert(globals_view(r@) =~= globals_view(globals@).take(i as int));
    }
    assert(globals_view(globals@).take(globals.len() as int) =~= globals_view(globals@));
    r
}

/// A player script, ready to be run: its text, and the global arrays of
/// string literals that the text defines, read off once.
pub struct JSInterpreter {
    js_code: String,
    globals: Globals,
    budget: u64,
}

impl View for JSInterpreter {
    type V = Seq<char>;

    /// The text of the script.
    closed spec fn view(&self) -> Seq<char> {
        self.js_code@
    }
}

/// Whether a call of a function of a script, with `arrays` global arrays to
/// bind, may end in the error `e`: the script does not load, an array cannot
/// be bound where there is one to bind, the function is missing, or the call
/// fails.
pub open spec fn call_may_fail_with(e: ScriptError, arrays: nat) -> bool {
    e == ScriptError::Load || e == ScriptError::MissingFunction || e == ScriptError::Call || (e
        == ScriptError::Global && arrays > 0)
}

/// Whether the evaluation of a piece of code may end in the error `e`: the
/// code fails, or its value cannot be read as text.
pub open spec fn evaluation_may_fail_with(e: ScriptError) -> bool {
    e == ScriptError::Load || e == ScriptError::Call
}

/// The number of global arrays that a call binds.
pub open spec fn arrays_bound(globals: Option<&Globals>) -> nat {
    match globals {
        Some(globals) => globals@.len(),
        None => 0,
    }
}

/// Whether `job`, done in a context, may end in the error `e`.
pub(crate) open spec fn job_may_fail_with(job: Job<'_>, e: ScriptError) -> bool {
    match job {
        Job::Call { globals, .. } => call_may_fail_with(e, arrays_bound(globals)),
        Job::Evaluate { .. } => evaluation_may_fail_with(e),
    }
}

/// What an evaluation gives, from how the reading of its value as text
/// ended: the text of a value that is a string, the empty text for a value
/// that is none, and an error where the text of a string cannot be read.
pub fn text_read(read: Option<Result<String, ()>>) -> (r: Result<String, ScriptError>)
    ensures
        match read {
            Some(Ok(text)) => r is Ok && r->Ok_0@ == text@,
            Some(Err(_)) => r == Err::<String, ScriptError>(ScriptError::Call),
            None => r is Ok && r->Ok_0@ == Seq::<char>::empty(),
        },
{
    match read {
        Some(Ok(text)) => Ok(text),
        Some(Err(_)) => Err(ScriptError::Call),
        None => Ok(String::new()),
    }
}

/// Stores the items in the array, in their order. Nothing can fail where
/// there is no item; a store that fails ends the binding.
fn bind_items<'js>(array: &rquickjs::Array<'js>, items: &Vec<String>) -> (r: Result<
    (),
    ScriptError,
>)
    ensures
        items@.len() == 0 ==> r is Ok,
        r matches Err(e) ==> e == ScriptError::Global,
{
    let mut i: usize = 0;
    while i < items.len()
        invariant
            i <= items.len(),
        decreases items.len() - i,
    {
        match script::array_set(array, i, items[i].as_str()) {
            Ok(_) => {},
            Err(_) => {
                return Err(ScriptError::Global);
            },
        }
        i += 1;
    }
    Ok(())
}

/// Binds each array under its name, in the order of the list. Nothing can
/// fail where the list is empty; a step that fails ends the binding.
fn bind_globals<'js>(ctx: &Ctx<'js>, globals: &Globals) -> (r: Result<(), ScriptError>)
    ensures
        globals@.len() == 0 ==> r is Ok,
        r matches Err(e) ==> e == ScriptError::Global,
{
    let mut i: usize = 0;
    while i < globals.len()
        invariant
            i <= globals.len(),
        decreases globals.len() - i,
    {
        let array = match script::new_array(ctx) {
            Ok(array) => array,
            Err(_) => {
                return Err(ScriptError::Global);
            },
        };
        match bind_items(&array, &globals[i].1) {
            Ok(_) => {},
            Err(e) => {
                return Err(e);
            },
        }
        match script::set_global(ctx, globals[i].0.as_str(), array) {
            Ok(_) => {},
            Err(_) => {
                return Err(ScriptError::Global);
            },
        }
        i += 1;
    }
    Ok(())
}

/// Does `job` in the context `ctx`. For a call: loads the script, binds the
/// globals in their order, looks the function up and calls it; the first step
/// that fails decides the error. What a successful call returns is the
/// script's business.
pub(crate) fn run_job<'js>(ctx: &Ctx<'js>, job: &Job<'_>) -> (r: Result<String, ScriptError>)
    ensures
        r matches Err(e) ==> job_may_fail_with(*job, e),
{
    match job {
        Job::Call { script, globals, function, argument } => {
            match script::eval(ctx, script) {
                Ok(_) => {},
                Err(_) => {
                    return Err(ScriptError::Load);
                },
            }
            match globals {
                Some(globals) => match bind_globals(ctx, globals) {
                    Ok(_) => {},
                    Err(e) => {
                        return Err(e);
                    },
                },
                None => {},
            }
            let callee = match script::global_function(ctx, function) {
                Ok(callee) => callee,
                Err(_) => {
                    return Err(ScriptError::MissingFunction);
                },
            };
            match script::call_with_text(&callee, argument) {
                Ok(result) => Ok(result),
                Err(_) => Err(ScriptError::Call),
            }
        },
        Job::Evaluate { code } => {
            let value = match script::eval(ctx, code) {
                Ok(value) => value,
                Err(_) => {
                    return Err(ScriptError::Load);
                },
            };
            match script::text_of_value(&value) {
                Some(Ok(text)) => text_read(Some(Ok(text))),
                Some(Err(_)) => text_read(Some(Err(()))),
                None => text_read(None),
            }
        },
    }
}

/// Does `job` in a fresh engine with a budget of steps. An engine that cannot
/// be set up is an error of its own; any other error is one of the job's.
fn run(job: &Job<'_>, budget: u64) -> (r: Result<String, ScriptError>)
    ensures
        r matches Err(e) ==> e == ScriptError::Engine || job_may_fail_with(*job, e),
{
    let runtime = match script::new_runtime() {
        Ok(runtime) => runtime,
        Err(_) => {
            return Err(ScriptError::Engine);
        },
    };
    script::limit_steps(&runtime, budget);
    let context = match script::full_context(&runtime) {
        Ok(context) => context,
        Err(_) => {
            return Err(ScriptError::Engine);
        },
    };
    script::in_context(&context, job)
}

impl JSInterpreter {
    /// The global arrays held are those that the text of the script defines.
    #[verifier::type_invariant]
    spec fn globals_are_read_off(&self) -> bool {
        globals_view(self.globals@) == globals_of(self.js_code@)
    }

    /// Takes the text of a player script, without its NUL characters.
    pub fn new(js_code: String) -> (r: Result<Self, ScriptError>)
        ensures
            r is Ok,
            r->Ok_0@ == without_nul(js_code@),
            r->Ok_0.step_budget() == STEP_BUDGET,
    {
        let cleaned = Self::clean_js_code(js_code.as_str());
        let globals = scan_globals(cleaned.as_str());
        Ok(Self { js_code: cleaned, globals, budget: STEP_BUDGET })
    }

    /// How often a run of this script is let go on before it is stopped.
    pub closed spec fn step_budget(&self) -> u64 {
        self.budget
    }

    /// The same script with another budget of steps for each run.
    pub fn with_step_budget(self, budget: u64) -> (r: Self)
        ensures
            r@ == self@,
            r.step_budget() == budget,
    {
        proof {
            use_type_invariant(&self);
        }
        Self { js_code: self.js_code, globals: self.globals, budget }
    }

    /// The text without its NUL characters; every other character stays.
    pub fn clean_js_code(js_code: &str) -> (r: String)
        ensures
            r@ == without_nul(js_code@),
    {
        let t = chars_of(js_code);
        let mut out: Vec<char> = Vec::new();
        let mut i: usize = 0;
        proof {
            assert(t@.take(0) =~= Seq::<char>::empty());
        }
        while i < t.len()
            invariant
                i <= t.len(),
                out@ == without_nul(t@.take(i as int)),
            decreases t.len() - i,
        {
            proof {
                assert(t@.take(i + 1).drop_last() =~= t@.take(i as int));
            }
            if t[i] != '\0' {
                out.push(t[i]);
            }
            i += 1;
        }
        proof {
            assert(t@.take(t.len() as int) =~= t@);
        }
        text_of(&out)
    }

    /// Runs the function `function_name` of the script on `signature`, in a
    /// fresh engine that is thrown away afterwards, with `globals` bound as
    /// global arrays. A failure inside the engine comes back as an error, and
    /// so does a script that runs beyond its budget of steps: the engine
    /// cannot be set up, the script does not load, an array cannot be bound,
    /// the function is missing, or the call fails. The result is whatever the
    /// script computes.
    pub fn decrypt_signature(
        &self,
        function_name: &str,
        signature: &str,
        globals: Option<Globals>,
    ) -> (r: Result<String, ScriptError>)
        ensures
            r matches Err(e) ==> e == ScriptError::Engine || call_may_fail_with(
                e,
                match globals {
                    Some(globals) => globals@.len(),
                    None => 0,
                },
            ),
    {
        let job = Job::Call {
            script: self.js_code.as_str(),
            globals: globals.as_ref(),
            function: function_name,
            argument: signature,
        };
        run(&job, self.budget)
    }

    /// The definition of the function `function_name` in the text of the
    /// script: the names of its parameters and the text of the definition.
    pub fn extract_function_code(&self, function_name: &str) -> (r: Result<
        (Vec<String>, String),
        ScriptError,
    >)
        ensures
            match r {
                Ok((parameters, code)) => function_code(self@, function_name@) == Some(
                    (texts(parameters@), code@),
                ),
                Err(e) => e == ScriptError::NoDefinition && function_code(self@, function_name@)
                    is None,
            },
    {
        let quoted = escape(function_name);
        let head = joined(r"function\s+", quoted.as_str());
        let definition = joined(head.as_str(), r"\s*\([^)]*\)\s*\{[^}]*\}");
        let code = match capture(definition.as_str(), self.js_code.as_str(), 0) {
            Some(code) => code,
            None => {
                return Err(ScriptError::NoDefinition);
            },
        };
        let parameters = joined(head.as_str(), r"\s*\(([^)]*)\)");
        let names = match capture(parameters.as_str(), code.as_str(), 1) {
            Some(list) => split_parameters(list.as_str()),
            None => Vec::new(),
        };
        proof {
            assert(texts(Seq::<String>::empty()) =~= Seq::empty());
        }
        Ok((names, code))
    }

    /// The global arrays of string literals that the script defines, each
    /// name once, with the items of its last definition.
    pub fn extract_global_vars(&self) -> (r: Result<Globals, ScriptError>)
        ensures
            r is Ok,
            globals_view(r->Ok_0@) == globals_of(self@),
            distinct_names(globals_view(r->Ok_0@)),
    {
        proof {
            use_type_invariant(self);
            lemma_globals_distinct(all_captures(GLOBAL_ARRAY_PATTERN@, self@));
        }
        Ok(copy_globals(&self.globals))
    }

    /// Runs the function `function_name` of the script on `argument`, in a
    /// fresh engine, with the global arrays of the script bound. The result
    /// is whatever the script computes; an error is one of those of a call.
    pub fn run_function(&self, function_name: &str, argument: &str) -> (r: Result<
        String,
        ScriptError,
    >)
        ensures
            r matches Err(e) ==> e == ScriptError::Engine || call_may_fail_with(
                e,
                globals_of(self@).len(),
            ),
    {
        proof {
            use_type_invariant(self);
        }
        let job = Job::Call {
            script: self.js_code.as_str(),
            globals: Some(&self.globals),
            function: function_name,
            argument,
        };
        run(&job, self.budget)
    }

    /// Evaluates `code` in a fresh engine: the value as text where it is a
    /// string, the empty text for any other value. It is an error where the
    /// engine cannot be set up, the code fails, or the text cannot be read.
    pub fn execute(&self, code: &str) -> (r: Result<String, ScriptError>)
        ensures
            r matches Err(e) ==> e == ScriptError::Engine || evaluation_may_fail_with(e),
    {
        let job = Job::Evaluate { code };
        run(&job, self.budget)
    }
}

} // verus!
