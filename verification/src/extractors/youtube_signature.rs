//! Resolves the protected tokens of a stream address: the signature and the
//! throttle token. The player script is run where an interpreter is at hand;
//! otherwise the signature's transformation is read off the script's text.

use vstd::prelude::*;
use crate::decimal::{parse_u64, parsed_u64};
use crate::extractors::js_interpreter::{
    call_may_fail_with,
    globals_of,
    JSInterpreter,
    ScriptError,
    without_nul,
};
use crate::pattern::{
    all_captures,
    capture,
    captures,
    escape,
    escaped,
    find_first,
    find_first_named,
    find_tied,
    first_capture,
    first_hit,
    group,
    named_hit_from,
    positions,
    take_group,
    tied_capture,
};
use crate::text::{
    braced,
    braced_body,
    chars_of,
    contains,
    contains_text,
    joined,
    owned,
    same_text,
    text_of,
    texts,
};

verus! {

/// One step of a signature transformation.
#[derive(Debug, Clone, Copy, PartialEq, Eq)]
pub enum TransformOp {
    /// Reverse the characters.
    Reverse,
    /// Remove the character at the index, where there is one.
    RemoveAt(usize),
    /// Swap the first character with the one at the index, where there is one.
    SwapWithFirst(usize),
}

/// What one step makes of a text.
pub open spec fn apply_op(op: TransformOp, s: Seq<char>) -> Seq<char> {
    match op {
        TransformOp::Reverse => s.reverse(),
        TransformOp::RemoveAt(index) => if index < s.len() {
            s.remove(index as int)
        } else {
            s
        },
        TransformOp::SwapWithFirst(index) => if index < s.len() {
            s.update(0, s[index as int]).update(index as int, s[0])
        } else {
            s
        },
    }
}

/// What a sequence of steps, taken in order, makes of a text.
pub open spec fn apply_ops(ops: Seq<TransformOp>, s: Seq<char>) -> Seq<char>
    decreases ops.len(),
{
    if ops.len() == 0 {
        s
    } else {
        apply_op(ops.last(), apply_ops(ops.drop_last(), s))
    }
}

/// The steps taken where the script's text gives none.
pub open spec fn default_ops() -> Seq<TransformOp> {
    seq![TransformOp::Reverse, TransformOp::RemoveAt(1), TransformOp::SwapWithFirst(39)]
}

/// A variable tested, then assigned what the function makes of its decoded
/// value. The variable stands in groups 1, 2 and 4, the function in group 3.
pub const DECODED_AND_ASSIGNED: &'static str =
    r#"\b([a-zA-Z0-9_$]+)&&\(([a-zA-Z0-9_$]+)=([a-zA-Z0-9_$]{2,})\(decodeURIComponent\(([a-zA-Z0-9_$]+)\)\)"#;

/// A function that splits its argument, works on it and joins it again. The
/// function stands in group 1, the argument in groups 2 to 5.
pub const SPLIT_AND_JOINED: &'static str =
    r#"([a-zA-Z0-9_$]+)\s*=\s*function\(\s*([a-zA-Z0-9_$]+)\s*\)\s*\{\s*([a-zA-Z0-9_$]+)\s*=\s*([a-zA-Z0-9_$]+)\.split\(\s*""\s*\)\s*;\s*[^}]+;\s*return\s+([a-zA-Z0-9_$]+)\.join\(\s*""\s*\)"#;

/// A function of `a` that starts by splitting `a`.
pub const SPLIT_IN_PLACE: &'static str =
    r#"(?:\b|[^a-zA-Z0-9_$])(?P<sig>[a-zA-Z0-9_$]{2,})\s*=\s*function\(\s*a\s*\)\s*\{\s*a\s*=\s*a\.split\(\s*""\s*\)(?:;[a-zA-Z0-9_$]{2}\.[a-zA-Z0-9_$]{2}\(a,\d+\))?"#;

/// The encoded result of the function set as a parameter, behind a test of `c` or `s`.
pub const SET_ENCODED: &'static str =
    r#"\b[cs]\s*&&\s*[adf]\.set\([^,]+\s*,\s*encodeURIComponent\s*\(\s*(?P<sig>[a-zA-Z0-9$]+)\("#;

/// The encoded result of the function set as a parameter, behind a test of any name.
pub const SET_ENCODED_ANYWHERE: &'static str =
    r#"\b[a-zA-Z0-9]+\s*&&\s*[a-zA-Z0-9]+\.set\([^,]+\s*,\s*encodeURIComponent\s*\(\s*(?P<sig>[a-zA-Z0-9$]+)\("#;

/// The function applied to the decoded field `s` of `h`.
pub const DECODED_FIELD: &'static str =
    r#"\bm=(?P<sig>[a-zA-Z0-9$]{2,})\(decodeURIComponent\(h\.s\)\)"#;

/// The function called behind the quoted word `signature`. The quotes stand
/// in groups 1 and 2, the function in group 3.
pub const QUOTED_SIGNATURE: &'static str =
    r#"("|')signature("|')\s*,\s*([a-zA-Z0-9$]+)\("#;

/// The function called where no field `sig` is set.
pub const SIGNATURE_OR_CALL: &'static str =
    r#"\.sig\|\|(?P<sig>[a-zA-Z0-9$]+)\("#;

/// The result of the function set as a parameter, behind a test of the host.
pub const SET_BEHIND_HOST: &'static str =
    r#"yt\.akamaized\.net/\)\s*\|\|\s*.*?\s*[cs]\s*&&\s*[adf]\.set\([^,]+\s*,\s*(?:encodeURIComponent\s*\()?\s*(?P<sig>[a-zA-Z0-9$]+)\("#;

/// The result of the function set as a parameter, behind a test of `c` or `s`.
pub const SET_PLAIN: &'static str =
    r#"\b[cs]\s*&&\s*[adf]\.set\([^,]+\s*,\s*(?P<sig>[a-zA-Z0-9$]+)\("#;

/// The result of the function set as a parameter, behind another call.
pub const SET_BEHIND_CALL: &'static str =
    r#"\bc\s*&&\s*[a-zA-Z0-9]+\.set\([^,]+\s*,\s*\([^)]*\)\s*\(\s*(?P<sig>[a-zA-Z0-9$]+)\("#;

/// The idioms tried third to sixth, in their order. Each names the function
/// in the group `sig`.
pub open spec fn early_patterns() -> Seq<Seq<char>> {
    seq![SPLIT_IN_PLACE@, SET_ENCODED@, SET_ENCODED_ANYWHERE@, DECODED_FIELD@]
}

/// The idioms tried eighth to last, in their order. Each names the function
/// in the group `sig`.
pub open spec fn late_patterns() -> Seq<Seq<char>> {
    seq![SIGNATURE_OR_CALL@, SET_BEHIND_HOST@, SET_PLAIN@, SET_BEHIND_CALL@]
}

/// A function whose body reads with `get` and goes on with `&&`.
pub const THROTTLE_GET_AND: &'static str =
    r"([a-zA-Z_$][a-zA-Z0-9_$]*)\s*=\s*function\s*\([^)]*\)\s*\{[^}]*\.get\([^)]*\)\s*\&\&[^}]*\}";

/// A function whose body mentions `enhanced_except`.
pub const THROTTLE_EXCEPT: &'static str =
    r"([a-zA-Z_$][a-zA-Z0-9_$]*)\s*=\s*function\s*\([^)]*\)\s*\{.*?enhanced_except.*?\}";

/// A function whose body joins characters to a text.
pub const THROTTLE_JOINED: &'static str =
    r#"([a-zA-Z_$][a-zA-Z0-9_$]*)\s*=\s*function\s*\([^)]*\)\s*\{.*?\.join\(\s*""\s*\).*?\}"#;

/// The idioms by which the throttle function is found, in the order tried.
/// Each names the function in group 1.
pub open spec fn nsig_patterns() -> Seq<Seq<char>> {
    seq![
        THROTTLE_GET_AND@,
        THROTTLE_EXCEPT@,
        THROTTLE_JOINED@,
    ]
}

/// The name of the signature function in the script, where an idiom finds
/// it. The idioms are tried in a fixed order, and the first that finds a name
/// gives it. Where an idiom writes one name in several places, only a match
/// with the same text in all of them counts.
pub open spec fn signature_function_name(script: Seq<char>) -> Option<Seq<char>> {
    match tied_capture(DECODED_AND_ASSIGNED@, script, 3, seq![1int, 2int, 4int]) {
        Some(name) => Some(name),
        None => match tied_capture(SPLIT_AND_JOINED@, script, 1, seq![2int, 3int, 4int, 5int]) {
            Some(name) => Some(name),
            None => match named_hit_from(early_patterns(), script, "sig"@, 0) {
                Some(name) => Some(name),
                None => match tied_capture(QUOTED_SIGNATURE@, script, 3, seq![1int, 2int]) {
                    Some(name) => Some(name),
                    None => named_hit_from(late_patterns(), script, "sig"@, 0),
                },
            },
        },
    }
}

/// The forms in which the signature function `name` may be defined. Each
/// captures in group 1 the object on which the function's body first calls a
/// method in a statement of its own: a name of two characters or more, so
/// that a parameter of one letter is not taken for it.
pub open spec fn helper_patterns(name: Seq<char>) -> Seq<Seq<char>> {
    seq![
        escaped(name) + r#"=function\([^)]*\)\{[^}]*?;\s*([a-zA-Z_\$][\w\$]+)\.[a-zA-Z_\$][\w\$]*\("#@,
        r#"function\s+"#@ + escaped(name) + r#"\([^)]*\)\{[^}]*?;\s*([a-zA-Z_\$][\w\$]+)\.[a-zA-Z_\$][\w\$]*\("#@,
        escaped(name) + r#":\s*function\([^)]*\)\{[^}]*?;\s*([a-zA-Z_\$][\w\$]+)\.[a-zA-Z_\$][\w\$]*\("#@,
    ]
}

/// The name of the helper object that the signature function `name` works
/// through, where a form of definition finds it.
pub open spec fn helper_object_name(script: Seq<char>, name: Seq<char>) -> Option<Seq<char>> {
    first_hit(helper_patterns(name), script, 1)
}

/// The forms in which the helper object `name` may be defined. Each captures
/// in group 1 the text from the brace that opens the object to the end of the
/// script.
pub open spec fn object_patterns(name: Seq<char>) -> Seq<Seq<char>> {
    seq![
        r#"var\s+"#@ + escaped(name) + r#"\s*=\s*(\{(?s:.*))"#@,
        escaped(name) + r#"\s*=\s*(\{(?s:.*))"#@,
        r#"const\s+"#@ + escaped(name) + r#"\s*=\s*(\{(?s:.*))"#@,
        r#"let\s+"#@ + escaped(name) + r#"\s*=\s*(\{(?s:.*))"#@,
    ]
}

/// The pattern of one method of the helper object: its name in group 1, its
/// body in group 2.
pub const METHOD_PATTERN: &'static str =
    r#"([a-zA-Z_\$][\w\$]*)\s*:\s*function\s*\([^)]*\)\s*\{([^}]+)\}"#;

/// The pattern of a removal, with the index in group 1: the first argument
/// of `splice` where it is a number, whatever follows it.
pub const SPLICE_PATTERN: &'static str = r#"splice\(\s*(\d+)\s*[,)]"#;

/// The pattern of a swap with the first element, with the index in group 1.
pub const SWAP_PATTERN: &'static str = r#"\[0\]\s*=\s*[a-zA-Z_\$][a-zA-Z_0-9]*\[(\d+)\]"#;

/// The index that `pattern` captures in `body`, where it is a number that
/// fits `usize`.
pub open spec fn captured_index(pattern: Seq<char>, body: Seq<char>) -> Option<usize> {
    match first_capture(pattern, body, 1) {
        Some(digits) => match parsed_u64(digits) {
            Some(n) => if n <= usize::MAX {
                Some(n as usize)
            } else {
                None
            },
            None => None,
        },
        None => None,
    }
}

/// The step that the body of one helper method stands for. A body that
/// mentions `reverse` reverses. One that mentions `splice` removes at the index
/// written in the call, at 0 where none can be read. One that mentions `swap`
/// or holds an assignment swaps with the index written in the assignment to
/// element 0, with 1 where none can be read. Any other body reverses.
pub open spec fn classify_method(body: Seq<char>) -> TransformOp {
    if contains_text(body, "reverse"@) {
        TransformOp::Reverse
    } else if contains_text(body, "splice"@) {
        match captured_index(SPLICE_PATTERN@, body) {
            Some(index) => TransformOp::RemoveAt(index),
            None => TransformOp::RemoveAt(0),
        }
    } else if contains_text(body, "swap"@) || contains_text(body, "="@) {
        match captured_index(SWAP_PATTERN@, body) {
            Some(index) => TransformOp::SwapWithFirst(index),
            None => TransformOp::SwapWithFirst(1),
        }
    } else {
        TransformOp::Reverse
    }
}

/// The steps that a run of matches of the method pattern stands for: one for
/// each match that has a name and a body.
pub open spec fn method_ops(matches: Seq<Seq<Option<Seq<char>>>>) -> Seq<TransformOp>
    decreases matches.len(),
{
    if matches.len() == 0 {
        Seq::empty()
    } else {
        match (group(matches.last(), 1), group(matches.last(), 2)) {
            (Some(_), Some(body)) => method_ops(matches.drop_last()).push(classify_method(body)),
            _ => method_ops(matches.drop_last()),
        }
    }
}

/// The steps read off the definition of the helper object `name`: one for
/// each method between the brace that opens the object and the brace that
/// closes it, in the order of definition. The default steps where there is no
/// name, no definition, or no method in it.
pub open spec fn object_ops(script: Seq<char>, name: Option<Seq<char>>) -> Seq<TransformOp> {
    match name {
        None => default_ops(),
        Some(name) => match first_hit(object_patterns(name), script, 1) {
            None => default_ops(),
            Some(rest) => match braced(rest) {
                None => default_ops(),
                Some(body) => {
                    let ops = method_ops(all_captures(METHOD_PATTERN@, body));
                    if ops.len() == 0 {
                        default_ops()
                    } else {
                        ops
                    }
                },
            },
        },
    }
}

/// The steps that the text of the script gives for a signature.
pub open spec fn transform_ops(script: Seq<char>) -> Seq<TransformOp> {
    match signature_function_name(script) {
        None => default_ops(),
        Some(function) => object_ops(script, helper_object_name(script, function)),
    }
}

/// The signature that the steps read off the script's text make of `signature`.
pub open spec fn fallback_signature(script: Seq<char>, signature: Seq<char>) -> Seq<char> {
    apply_ops(transform_ops(script), signature)
}

fn early_pattern_list() -> (r: Vec<String>)
    ensures
        texts(r@) == early_patterns(),
{
    let mut v: Vec<String> = Vec::new();
    v.push(owned(SPLIT_IN_PLACE));
    v.push(owned(SET_ENCODED));
    v.push(owned(SET_ENCODED_ANYWHERE));
    v.push(owned(DECODED_FIELD));
    assert(texts(v@) =~= early_patterns());
    v
}

fn late_pattern_list() -> (r: Vec<String>)
    ensures
        texts(r@) == late_patterns(),
{
    let mut v: Vec<String> = Vec::new();
    v.push(owned(SIGNATURE_OR_CALL));
    v.push(owned(SET_BEHIND_HOST));
    v.push(owned(SET_PLAIN));
    v.push(owned(SET_BEHIND_CALL));
    assert(texts(v@) =~= late_patterns());
    v
}

fn group_list(first: usize, second: usize, third: Option<usize>, fourth: Option<usize>) -> (r: Vec<
    usize,
>)
    ensures
        positions(r@) == (match (third, fourth) {
            (Some(c), Some(d)) => seq![first as int, second as int, c as int, d as int],
            (Some(c), None) => seq![first as int, second as int, c as int],
            _ => seq![first as int, second as int],
        }),
{
    let mut v: Vec<usize> = Vec::new();
    v.push(first);
    v.push(second);
    match third {
        Some(c) => {
            v.push(c);
            match fourth {
                Some(d) => {
                    v.push(d);
                    assert(positions(v@) =~= seq![first as int, second as int, c as int, d as int]);
                },
                None => {
                    assert(positions(v@) =~= seq![first as int, second as int, c as int]);
                },
            }
        },
        None => {
            assert(positions(v@) =~= seq![first as int, second as int]);
        },
    }
    v
}

fn nsig_pattern_list() -> (r: Vec<String>)
    ensures
        texts(r@) == nsig_patterns(),
{
    let mut v: Vec<String> = Vec::new();
    v.push(owned(THROTTLE_GET_AND));
    v.push(owned(THROTTLE_EXCEPT));
    v.push(owned(THROTTLE_JOINED));
    assert(texts(v@) =~= nsig_patterns());
    v
}

fn helper_pattern_list(name: &str) -> (r: Vec<String>)
    ensures
        texts(r@) == helper_patterns(name@),
{
    let quoted = escape(name);
    let mut v: Vec<String> = Vec::new();
    v.push(joined(quoted.as_str(), r#"=function\([^)]*\)\{[^}]*?;\s*([a-zA-Z_\$][\w\$]+)\.[a-zA-Z_\$][\w\$]*\("#));
    let head = joined(r#"function\s+"#, quoted.as_str());
    v.push(joined(head.as_str(), r#"\([^)]*\)\{[^}]*?;\s*([a-zA-Z_\$][\w\$]+)\.[a-zA-Z_\$][\w\$]*\("#));
    v.push(joined(quoted.as_str(), r#":\s*function\([^)]*\)\{[^}]*?;\s*([a-zA-Z_\$][\w\$]+)\.[a-zA-Z_\$][\w\$]*\("#));
    assert(texts(v@) =~= helper_patterns(name@));
    v
}

fn object_pattern_list(name: &str) -> (r: Vec<String>)
    ensures
        texts(r@) == object_patterns(name@),
{
    let quoted = escape(name);
    let mut v: Vec<String> = Vec::new();
    let head = joined(r#"var\s+"#, quoted.as_str());
    v.push(joined(head.as_str(), r#"\s*=\s*(\{(?s:.*))"#));
    v.push(joined(quoted.as_str(), r#"\s*=\s*(\{(?s:.*))"#));
    let head = joined(r#"const\s+"#, quoted.as_str());
    v.push(joined(head.as_str(), r#"\s*=\s*(\{(?s:.*))"#));
    let head = joined(r#"let\s+"#, quoted.as_str());
    v.push(joined(head.as_str(), r#"\s*=\s*(\{(?s:.*))"#));
    assert(texts(v@) =~= object_patterns(name@));
    v
}

fn default_operations() -> (r: Vec<TransformOp>)
    ensures
        r@ == default_ops(),
{
    let mut v: Vec<TransformOp> = Vec::new();
    v.push(TransformOp::Reverse);
    v.push(TransformOp::RemoveAt(1));
    v.push(TransformOp::SwapWithFirst(39));
    assert(v@ =~= default_ops());
    v
}

fn reversed(s: &Vec<char>) -> (r: Vec<char>)
    ensures
        r@ == s@.reverse(),
{
    let mut r: Vec<char> = Vec::new();
    let mut i: usize = s.len();
    while i > 0
        invariant
            i <= s.len(),
            r.len() == s.len() - i,
            forall|k: int| 0 <= k < r.len() ==> r@[k] == s@[s.len() - 1 - k],
        decreases i,
    {
        i -= 1;
        r.push(s[i]);
    }
    assert(r@ =~= s@.reverse());
    r
}

/// Takes one step on `s`.
pub fn apply_operation(op: TransformOp, s: Vec<char>) -> (r: Vec<char>)
    ensures
        r@ == apply_op(op, s@),
{
    let mut s = s;
    match op {
        TransformOp::Reverse => reversed(&s),
        TransformOp::RemoveAt(index) => {
            if index < s.len() {
                s.remove(index);
            }
            s
        },
        TransformOp::SwapWithFirst(index) => {
            if index < s.len() {
                let first = s[0];
                let other = s[index];
                s[0] = other;
                s[index] = first;
            }
            s
        },
    }
}

/// Takes the steps `ops` in order on `signature`.
pub fn apply_operations(ops: &Vec<TransformOp>, signature: &str) -> (r: String)
    ensures
        r@ == apply_ops(ops@, signature@),
{
    let mut s = chars_of(signature);
    let mut i: usize = 0;
    proof {
        assert(ops@.take(0) =~= Seq::empty());
    }
    while i < ops.len()
        invariant
            i <= ops.len(),
            s@ == apply_ops(ops@.take(i as int), signature@),
        decreases ops.len() - i,
    {
        proof {
            assert(ops@.take(i + 1).drop_last() =~= ops@.take(i as int));
        }
        s = apply_operation(ops[i], s);
        i += 1;
    }
    proof {
        assert(ops@.take(ops.len() as int) =~= ops@);
    }
    text_of(&s)
}

fn read_index(pattern: &str, body: &str) -> (r: Option<usize>)
    ensures
        r == captured_index(pattern@, body@),
{
    match capture(pattern, body, 1) {
        Some(digits) => match parse_u64(digits.as_str()) {
            Some(n) => if n <= usize::MAX as u64 {
                Some(n as usize)
            } else {
                None
            },
            None => None,
        },
        None => None,
    }
}

fn copy_of(ops: &Vec<TransformOp>) -> (r: Vec<TransformOp>)
    ensures
        r@ == ops@,
{
    let mut r: Vec<TransformOp> = Vec::new();
    let mut i: usize = 0;
    while i < ops.len()
        invariant
            i <= ops.len(),
            r@ == ops@.take(i as int),
        decreases ops.len() - i,
    {
        r.push(ops[i]);
        i += 1;
        assert(r@ =~= ops@.take(i as int));
    }
    assert(ops@.take(ops.len() as int) =~= ops@);
    r
}

/// Whether no idiom finds a throttle function in the script.
pub open spec fn no_throttle_function(script: Seq<char>) -> bool {
    forall|i: int|
        0 <= i < nsig_patterns().len() ==> first_capture(#[trigger] nsig_patterns()[i], script, 1)
            is None
}

/// The resolved throttle token, given how the runs of the script's functions
/// ended: what the first successful run returned, and the token itself where
/// no run succeeded.
pub fn settle_nsig(outcome: Option<String>, nsig: &str) -> (r: String)
    ensures
        r@ == (match outcome {
            Some(resolved) => resolved@,
            None => nsig@,
        }),
{
    match outcome {
        Some(resolved) => resolved,
        None => owned(nsig),
    }
}

/// Runs in turn the function that each throttle idiom finds in the script, and
/// returns the first result that a run gives.
pub fn run_throttle_functions(interpreter: &JSInterpreter, nsig: &str, js_content: &str) -> (r: Option<
    String,
>)
    ensures
        no_throttle_function(js_content@) ==> r is None,
{
    let patterns = nsig_pattern_list();
    let mut i: usize = 0;
    while i < patterns.len()
        invariant
            i <= patterns.len(),
            texts(patterns@) == nsig_patterns(),
        decreases patterns.len() - i,
    {
        match capture(patterns[i].as_str(), js_content, 1) {
            Some(function) => {
                proof {
                    assert(texts(patterns@)[i as int] == patterns[i as int]@);
                    assert(first_capture(nsig_patterns()[i as int], js_content@, 1) is Some);
                }
                match interpreter.run_function(function.as_str(), nsig) {
                    Ok(resolved) => {
                        return Some(resolved);
                    },
                    Err(_) => {},
                }
            },
            None => {},
        }
        i += 1;
    }
    None
}

/// Resolves signatures and throttle tokens for one player at a time.
pub struct SignatureDecrypter {
    transform_cache: Vec<(String, Vec<TransformOp>)>,
    js_interpreter: Option<JSInterpreter>,
}

impl SignatureDecrypter {
    /// Every entry of the cache holds the steps that its script's text gives,
    /// and no script has two entries.
    #[verifier::type_invariant]
    spec fn cache_is_true(&self) -> bool {
        &&& forall|i: int|
            0 <= i < self.transform_cache@.len() ==> (#[trigger] self.transform_cache@[i]).1@
                == transform_ops(self.transform_cache@[i].0@)
        &&& forall|i: int, j: int|
            0 <= i < j < self.transform_cache@.len() ==> (#[trigger] self.transform_cache@[i]).0@
                != (#[trigger] self.transform_cache@[j]).0@
    }

    /// The script that the interpreter holds, where there is one.
    pub closed spec fn script(&self) -> Option<Seq<char>> {
        match self.js_interpreter {
            Some(interpreter) => Some(interpreter@),
            None => None,
        }
    }

    /// A resolver without an interpreter and with nothing remembered.
    pub fn new() -> (r: Self)
        ensures
            r.script() is None,
    {
        Self { transform_cache: Vec::new(), js_interpreter: None }
    }

    /// Gives the resolver an interpreter for the player script `js_code`.
    pub fn init_js_interpreter(&mut self, js_code: String) -> (r: Result<(), ScriptError>)
        ensures
            r is Ok,
            final(self).script() == Some(without_nul(js_code@)),
    {
        proof {
            use_type_invariant(&*self);
        }
        match JSInterpreter::new(js_code) {
            Ok(interpreter) => {
                self.js_interpreter = Some(interpreter);
                Ok(())
            },
            Err(e) => Err(e),
        }
    }

    /// Resolves `signature`. Where an interpreter is at hand and the script
    /// names its signature function, that function is run, and what it returns
    /// is the result. In every other case, and where the run fails, the result
    /// is what the steps read off the script's text make of the signature.
    pub fn decrypt_signature(&mut self, signature: &str, js_content: &str) -> (r: Result<
        String,
        ScriptError,
    >)
        ensures
            r is Ok,
            final(self).script() == old(self).script(),
            old(self).script() is None || signature_function_name(js_content@) is None ==> r->Ok_0@
                == fallback_signature(js_content@, signature@),
    {
        let outcome = self.run_signature_function(signature, js_content);
        Ok(self.settle_signature(outcome, signature, js_content))
    }

    /// Runs the script's signature function on `signature`, where an
    /// interpreter is at hand and the script names that function.
    pub fn run_signature_function(&self, signature: &str, js_content: &str) -> (r: Option<
        Result<String, ScriptError>,
    >)
        ensures
            r is None <==> self.script() is None || signature_function_name(js_content@) is None,
            r matches Some(Err(e)) ==> e == ScriptError::Engine || call_may_fail_with(
                e,
                globals_of(self.script()->0).len(),
            ),
    {
        match &self.js_interpreter {
            Some(interpreter) => match self.find_signature_function_name(js_content) {
                Some(function) => Some(interpreter.run_function(function.as_str(), signature)),
                None => None,
            },
            None => None,
        }
    }

    /// The resolved signature, given how the run of the script's function
    /// ended: what the function returned where it returned, and otherwise
    /// what the steps read off the script's text make of the signature.
    pub fn settle_signature(
        &mut self,
        outcome: Option<Result<String, ScriptError>>,
        signature: &str,
        js_content: &str,
    ) -> (r: String)
        ensures
            r@ == (match outcome {
                Some(Ok(resolved)) => resolved@,
                _ => fallback_signature(js_content@, signature@),
            }),
            final(self).script() == old(self).script(),
    {
        match outcome {
            Some(Ok(resolved)) => resolved,
            _ => {
                let operations = self.remembered_operations(js_content);
                apply_operations(&operations, signature)
            },
        }
    }

    /// Resolves the throttle token `nsig`. Where an interpreter is at hand, the
    /// function that each idiom finds in the script is run in turn, and the
    /// first result returned is the resolved token. In every other case the
    /// token comes back unchanged.
    pub fn decrypt_nsig(&mut self, nsig: &str, js_content: &str) -> (r: Result<String, ScriptError>)
        ensures
            r is Ok,
            final(self).script() == old(self).script(),
            old(self).script() is None || no_throttle_function(js_content@) ==> r->Ok_0@ == nsig@,
    {
        let outcome = match &self.js_interpreter {
            Some(interpreter) => run_throttle_functions(interpreter, nsig, js_content),
            None => None,
        };
        Ok(settle_nsig(outcome, nsig))
    }

    /// The steps that the text of the script gives, from memory where this
    /// script was seen before.
    fn remembered_operations(&mut self, js_content: &str) -> (r: Vec<TransformOp>)
        ensures
            r@ == transform_ops(js_content@),
            final(self).script() == old(self).script(),
    {
        proof {
            use_type_invariant(&*self);
        }
        let mut i: usize = 0;
        while i < self.transform_cache.len()
            invariant
                i <= self.transform_cache.len(),
                forall|k: int|
                    0 <= k < self.transform_cache@.len() ==> (
                    #[trigger] self.transform_cache@[k]).1@ == transform_ops(
                        self.transform_cache@[k].0@,
                    ),
                forall|k: int| 0 <= k < i ==> (#[trigger] self.transform_cache@[k]).0@ != js_content@,
            decreases self.transform_cache.len() - i,
        {
            if same_text(self.transform_cache[i].0.as_str(), js_content) {
                return copy_of(&self.transform_cache[i].1);
            }
            i += 1;
        }
        let operations = self.read_operations(js_content);
        proof {
            use_type_invariant(&*self);
        }
        let mut cache: Vec<(String, Vec<TransformOp>)> = Vec::new();
        core::mem::swap(&mut self.transform_cache, &mut cache);
        cache.push((owned(js_content), copy_of(&operations)));
        core::mem::swap(&mut self.transform_cache, &mut cache);
        operations
    }

    /// The name of the signature function, as the call sites in the script
    /// give it.
    pub fn find_signature_function_name(&self, js_content: &str) -> (r: Option<String>)
        ensures
            r.deep_view() == signature_function_name(js_content@),
    {
        match find_tied(DECODED_AND_ASSIGNED, js_content, 3, &group_list(1, 2, Some(4), None)) {
            Some(name) => {
                return Some(name);
            },
            None => {},
        }
        match find_tied(SPLIT_AND_JOINED, js_content, 1, &group_list(2, 3, Some(4), Some(5))) {
            Some(name) => {
                return Some(name);
            },
            None => {},
        }
        match find_first_named(&early_pattern_list(), js_content, "sig") {
            Some(name) => {
                return Some(name);
            },
            None => {},
        }
        match find_tied(QUOTED_SIGNATURE, js_content, 3, &group_list(1, 2, None, None)) {
            Some(name) => {
                return Some(name);
            },
            None => {},
        }
        find_first_named(&late_pattern_list(), js_content, "sig")
    }

    /// The name of the helper object that the signature function works
    /// through.
    pub fn find_transform_object_name(&self, js_content: &str, sig_func_name: &str) -> (r: Option<
        String,
    >)
        ensures
            r.deep_view() == helper_object_name(js_content@, sig_func_name@),
    {
        let patterns = helper_pattern_list(sig_func_name);
        find_first(&patterns, js_content, 1)
    }

    /// The step that the body of one helper method stands for.
    pub fn parse_transform_method(&self, method_body: &str) -> (r: TransformOp)
        ensures
            r == classify_method(method_body@),
    {
        if contains(method_body, "reverse") {
            TransformOp::Reverse
        } else if contains(method_body, "splice") {
            match read_index(SPLICE_PATTERN, method_body) {
                Some(index) => TransformOp::RemoveAt(index),
                None => TransformOp::RemoveAt(0),
            }
        } else if contains(method_body, "swap") || contains(method_body, "=") {
            match read_index(SWAP_PATTERN, method_body) {
                Some(index) => TransformOp::SwapWithFirst(index),
                None => TransformOp::SwapWithFirst(1),
            }
        } else {
            TransformOp::Reverse
        }
    }

    /// The steps read off the definition of the helper object, and the default
    /// steps where the object has no name, no definition or no method.
    pub fn extract_transform_operations(
        &self,
        js_content: &str,
        transform_obj_name: Option<&str>,
    ) -> (r: Vec<TransformOp>)
        ensures
            r@ == object_ops(js_content@, transform_obj_name.deep_view()),
    {
        let name = match transform_obj_name {
            Some(name) => name,
            None => {
                return default_operations();
            },
        };
        let patterns = object_pattern_list(name);
        let rest = match find_first(&patterns, js_content, 1) {
            Some(rest) => rest,
            None => {
                return default_operations();
            },
        };
        let body = match braced_body(rest.as_str()) {
            Some(body) => body,
            None => {
                return default_operations();
            },
        };
        let methods = captures(METHOD_PATTERN, body.as_str());
        let mut operations: Vec<TransformOp> = Vec::new();
        let mut i: usize = 0;
        proof {
            assert(methods.deep_view().take(0) =~= Seq::empty());
        }
        while i < methods.len()
            invariant
                i <= methods.len(),
                operations@ == method_ops(methods.deep_view().take(i as int)),
            decreases methods.len() - i,
        {
            proof {
                assert(methods.deep_view().take(i + 1).drop_last() =~= methods.deep_view().take(
                    i as int,
                ));
                assert(methods.deep_view().take(i + 1).last() == methods[i as int].deep_view());
            }
            match (take_group(&methods[i], 1), take_group(&methods[i], 2)) {
                (Some(_), Some(method_body)) => {
                    operations.push(self.parse_transform_method(method_body.as_str()));
                },
                _ => {},
            }
            i += 1;
        }
        proof {
            assert(methods.deep_view().take(methods.len() as int) =~= methods.deep_view());
        }
        if operations.len() == 0 {
            default_operations()
        } else {
            operations
        }
    }

    /// The steps that the text of the script gives for a signature.
    pub fn extract_signature_operations(&mut self, js_content: &str) -> (r: Vec<TransformOp>)
        ensures
            r@ == transform_ops(js_content@),
            final(self).script() == old(self).script(),
    {
        self.read_operations(js_content)
    }

    fn read_operations(&self, js_content: &str) -> (r: Vec<TransformOp>)
        ensures
            r@ == transform_ops(js_content@),
    {
        let function = match self.find_signature_function_name(js_content) {
            Some(function) => function,
            None => {
                return default_operations();
            },
        };
        let object = self.find_transform_object_name(js_content, function.as_str());
        match object {
            Some(object) => self.extract_transform_operations(js_content, Some(object.as_str())),
            None => self.extract_transform_operations(js_content, None),
        }
    }
}

} // verus!
