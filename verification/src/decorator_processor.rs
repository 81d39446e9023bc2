//! Upgrade steps declared by decorators: every method that carries
//! `@Class.register_step(...)` is one step, described by the decorator's
//! arguments.

use crate::errors::BridgeError;
use crate::records::{
    reference_to, steps_view, CallableMetadata, SourceFile, StepKind, StepModel, UpgradeStep,
    parameters_view,
};
use crate::text::{
    chars_of, ends_with, find, find_char, find_char_from, find_from, find_last_char,
    finishes_with, is_text, rfind_char, slice, split, split_on, string_of, trim, trimmed, unquote,
    unquoted, upper_text, views,
};
use crate::utils::{match_of, matching_delimiter};
use vstd::prelude::*;
use vstd::string::*;

verus! {

/// A decimal digit.
pub open spec fn is_digit(c: char) -> bool {
    '0' <= c <= '9'
}

/// A text of decimal digits only.
pub open spec fn all_digits(s: Seq<char>) -> bool {
    forall|i: int| 0 <= i < s.len() ==> is_digit(#[trigger] s[i])
}

/// The number that a text of decimal digits denotes.
pub open spec fn number(s: Seq<char>) -> int
    decreases s.len(),
{
    if s.len() == 0 {
        0
    } else {
        number(s.drop_last()) * 10 + (s.last() as int - '0' as int)
    }
}

/// The integer that a text denotes: an optional sign, then decimal digits,
/// the whole within the range of 64 bits.
pub open spec fn int_of(s: Seq<char>) -> Option<int> {
    let negative = s.len() > 0 && s[0] == '-';
    let signed = s.len() > 0 && (s[0] == '-' || s[0] == '+');
    let body = if signed {
        s.subrange(1, s.len() as int)
    } else {
        s
    };
    let v = if negative {
        -number(body)
    } else {
        number(body)
    };
    if body.len() == 0 || !all_digits(body) || v < i64::MIN || v > i64::MAX {
        None
    } else {
        Some(v)
    }
}

proof fn lemma_number_grows(s: Seq<char>, k: int)
    requires
        all_digits(s),
        0 <= k <= s.len(),
    ensures
        0 <= number(s.subrange(0, k)) <= number(s),
    decreases s.len() - k,
{
    if k == s.len() {
        assert(s.subrange(0, k) =~= s);
        lemma_number_nonneg(s);
    } else {
        lemma_number_grows(s, k + 1);
        let t = s.subrange(0, k + 1);
        assert(t.drop_last() =~= s.subrange(0, k));
        assert(is_digit(s[k]));
        assert(t.last() == s[k]);
        assert(all_digits(s.subrange(0, k))) by {
            assert forall|i: int| 0 <= i < k implies is_digit(#[trigger] s.subrange(0, k)[i]) by {
                assert(is_digit(s[i]));
            }
        }
        lemma_number_nonneg(s.subrange(0, k));
    }
}

proof fn lemma_number_nonneg(s: Seq<char>)
    requires
        all_digits(s),
    ensures
        0 <= number(s),
    decreases s.len(),
{
    if s.len() > 0 {
        assert(all_digits(s.drop_last())) by {
            assert forall|i: int| 0 <= i < s.len() - 1 implies is_digit(
                #[trigger] s.drop_last()[i],
            ) by {
                assert(is_digit(s[i]));
            }
        }
        lemma_number_nonneg(s.drop_last());
        assert(is_digit(s.last()));
    }
}

/// Reads a signed decimal integer of 64 bits.
pub fn parse_int(s: &[char]) -> (r: Option<i64>)
    ensures
        match r {
            Some(v) => int_of(s@) == Some(v as int),
            None => int_of(s@) is None,
        },
{
    let n: usize = s.len();
    if n == 0 {
        return None;
    }
    let negative = s[0] == '-';
    let start: usize = if s[0] == '-' || s[0] == '+' {
        1
    } else {
        0
    };
    let ghost body = if start == 1 {
        s@.subrange(1, n as int)
    } else {
        s@
    };
    if start == n {
        return None;
    }
    let mut acc: i128 = 0;
    let mut i: usize = start;
    proof {
        assert(body.subrange(0, 0) =~= Seq::<char>::empty());
    }
    while i < n
        invariant
            start <= i <= n,
            n == s@.len(),
            start <= 1,
            n > 0,
            (start == 1) == (s@[0] == '-' || s@[0] == '+'),
            body == (if start == 1 {
                s@.subrange(1, n as int)
            } else {
                s@
            }),
            acc as int == number(body.subrange(0, i - start)),
            0 <= acc <= 0x8000_0000_0000_0000,
            forall|j: int| 0 <= j < i - start ==> is_digit(#[trigger] body[j]),
        decreases n - i,
    {
        let c = s[i];
        assert(body[i - start] == c);
        if !('0' <= c && c <= '9') {
            assert(!is_digit(body[i - start]));
            assert(!all_digits(body));
            return None;
        }
        let d: i128 = (c as u32 - '0' as u32) as i128;
        proof {
            let t = body.subrange(0, i - start + 1);
            assert(t.drop_last() =~= body.subrange(0, i - start));
            assert(t.last() == c);
        }
        acc = acc * 10 + d;
        i += 1;
        assert(acc as int == number(body.subrange(0, i - start)));
        if acc > 0x8000_0000_0000_0000 {
            proof {
                if all_digits(body) {
                    lemma_number_grows(body, i - start);
                }
            }
            return None;
        }
    }
    proof {
        assert(body.subrange(0, n - start) =~= body);
        assert(all_digits(body));
    }
    if negative {
        Some((-acc) as i64)
    } else if acc == 0x8000_0000_0000_0000 {
        None
    } else {
        Some(acc as i64)
    }
}

/// The category that a type name stands for, whatever its case.
pub open spec fn step_kind_of(name: Seq<char>) -> StepKind {
    if upper_text(name) == "FILE"@ {
        StepKind::File
    } else if upper_text(name) == "SYSTEM"@ {
        StepKind::System
    } else {
        StepKind::Unknown
    }
}

/// The step that a decorator without arguments declares for a function.
pub open spec fn default_step(func_name: Seq<char>) -> StepModel {
    StepModel {
        name: func_name,
        func: reference_to("r2x_reeds.upgrader.upgrade_steps"@, func_name, "function"@),
        target_version: "unknown"@,
        upgrade_type: StepKind::File,
        priority: 100,
        min_version: None,
        max_version: None,
    }
}

/// The step after one more argument `key=value` of the decorator.
pub open spec fn apply_arg(step: StepModel, raw: Seq<char>) -> StepModel {
    let arg = trim(raw);
    match find_char_from(arg, '=', 0) {
        Some(e) => {
            let key = trim(arg.subrange(0, e));
            let value = trim(arg.subrange(e + 1, arg.len() as int));
            if key == "target_version"@ {
                StepModel { target_version: unquote(value), ..step }
            } else if key == "upgrade_type"@ {
                match rfind_char(value, '.') {
                    Some(d) => StepModel {
                        upgrade_type: step_kind_of(value.subrange(d + 1, value.len() as int)),
                        ..step
                    },
                    None => step,
                }
            } else if key == "priority"@ {
                match int_of(value) {
                    Some(p) => StepModel { priority: p, ..step },
                    None => step,
                }
            } else if key == "min_version"@ {
                StepModel { min_version: Some(unquote(value)), ..step }
            } else if key == "max_version"@ {
                StepModel { max_version: Some(unquote(value)), ..step }
            } else {
                step
            }
        },
        None => step,
    }
}

/// The step after the first `n` arguments.
pub open spec fn apply_args(step: StepModel, args: Seq<Seq<char>>, n: int) -> StepModel
    decreases n,
{
    if n <= 0 || n > args.len() {
        step
    } else {
        apply_arg(apply_args(step, args, n - 1), args[n - 1])
    }
}

/// The step that a decorator with the given argument text declares for
/// the function `func_name`.
pub open spec fn step_of(func_name: Seq<char>, args: Seq<char>) -> StepModel {
    apply_args(default_step(func_name), split(args, ','), split(args, ',').len() as int)
}

fn set_arg(step: &mut UpgradeStep, raw: &[char])
    ensures
        final(step)@ == apply_arg(old(step)@, raw@),
{
    let arg = trimmed(raw);
    match find_char(arg.as_slice(), '=', 0) {
        Some(e) => {
            let end: usize = arg.len();
            let key = trimmed(slice(arg.as_slice(), 0, e).as_slice());
            let value = trimmed(slice(arg.as_slice(), e + 1, end).as_slice());
            if is_text(key.as_slice(), "target_version") {
                step.target_version = string_of(unquoted(value.as_slice()).as_slice());
            } else if is_text(key.as_slice(), "upgrade_type") {
                match find_last_char(value.as_slice(), '.') {
                    Some(d) => {
                        let vend: usize = value.len();
                        let name = string_of(slice(value.as_slice(), d + 1, vend).as_slice());
                        let up = chars_of(name.as_str().to_uppercase().as_str());
                        if is_text(up.as_slice(), "FILE") {
                            step.upgrade_type = StepKind::File;
                        } else if is_text(up.as_slice(), "SYSTEM") {
                            step.upgrade_type = StepKind::System;
                        } else {
                            step.upgrade_type = StepKind::Unknown;
                        }
                    },
                    None => {},
                }
            } else if is_text(key.as_slice(), "priority") {
                match parse_int(value.as_slice()) {
                    Some(p) => {
                        step.priority = p;
                    },
                    None => {},
                }
            } else if is_text(key.as_slice(), "min_version") {
                step.min_version = Some(string_of(unquoted(value.as_slice()).as_slice()));
            } else if is_text(key.as_slice(), "max_version") {
                step.max_version = Some(string_of(unquoted(value.as_slice()).as_slice()));
            }
        },
        None => {},
    }
}

fn step_from(func_name: &[char], decorator_args: &[char]) -> (r: UpgradeStep)
    ensures
        r@ == step_of(func_name@, decorator_args@),
{
    let func = CallableMetadata {
        module: String::from_str("r2x_reeds.upgrader.upgrade_steps"),
        name: string_of(func_name),
        callable_type: String::from_str("function"),
        return_annotation: None,
        parameters: Vec::new(),
    };
    assert(parameters_view(func.parameters@) =~= Seq::empty());
    let mut step = UpgradeStep {
        name: string_of(func_name),
        func,
        target_version: String::from_str("unknown"),
        upgrade_type: StepKind::File,
        priority: 100,
        min_version: None,
        max_version: None,
    };
    assert(step@ == default_step(func_name@));
    let args = split_on(decorator_args, ',');
    let ghost start = step@;
    let mut n: usize = 0;
    while n < args.len()
        invariant
            n <= args@.len(),
            step@ == apply_args(start, views(args@), n as int),
        decreases args@.len() - n,
    {
        set_arg(&mut step, args[n].as_slice());
        n += 1;
    }
    step
}

/// Build an upgrade step from the arguments of a decorator, with defaults
/// for what the arguments leave out.
pub fn build_upgrade_step_from_decorator(func_name: &str, decorator_args: &str) -> (r: Result<
    UpgradeStep,
    BridgeError,
>)
    ensures
        r is Ok,
        r.unwrap()@ == step_of(func_name@, decorator_args@),
{
    let f = chars_of(func_name);
    let a = chars_of(decorator_args);
    Ok(step_from(f.as_slice(), a.as_slice()))
}

/// The text that decorates a step of `class_name`.
pub open spec fn decorator_prefix(class_name: Seq<char>) -> Seq<char> {
    "@"@ + class_name + ".register_step("@
}

/// The step declared by the decorator at position `p`, if the decorator's
/// parentheses close and a function definition follows.
pub open spec fn step_at(content: Seq<char>, pat: Seq<char>, p: int) -> Seq<StepModel> {
    match match_of(content, '(', ')', p + pat.len() - 1) {
        Some(close) => match find_from(content, "def "@, close) {
            Some(d) => match find_char_from(content, '(', d + 4) {
                Some(q) => seq![
                    step_of(
                        trim(content.subrange(d + 4, q)),
                        content.subrange(p + pat.len(), close),
                    ),
                ],
                None => Seq::empty(),
            },
            None => Seq::empty(),
        },
        None => Seq::empty(),
    }
}

/// The steps declared by the decorators found at or after `from`.
pub open spec fn steps_from(content: Seq<char>, pat: Seq<char>, from: int) -> Seq<StepModel>
    decreases content.len() - from,
{
    match find_from(content, pat, from) {
        Some(p) if from <= p < content.len() => step_at(content, pat, p) + steps_from(
            content,
            pat,
            p + 1,
        ),
        _ => Seq::empty(),
    }
}

/// The steps that a file declares for `class_name`, in the order of the
/// file.
pub open spec fn file_steps(content: Seq<char>, class_name: Seq<char>) -> Seq<StepModel> {
    steps_from(content, decorator_prefix(class_name), 0)
}

fn steps_in(content: &[char], class_name: &[char]) -> (steps: Vec<UpgradeStep>)
    ensures
        steps_view(steps@) == file_steps(content@, class_name@),
{
    let mut pat: Vec<char> = Vec::new();
    pat.push('@');
    let mut k: usize = 0;
    while k < class_name.len()
        invariant
            k <= class_name@.len(),
            pat@ == seq!['@'] + class_name@.subrange(0, k as int),
        decreases class_name@.len() - k,
    {
        pat.push(class_name[k]);
        k += 1;
        assert(pat@ =~= seq!['@'] + class_name@.subrange(0, k as int));
    }
    let tail = chars_of(".register_step(");
    let def_kw = chars_of("def ");
    proof {
        reveal_strlit(".register_step(");
        reveal_strlit("def ");
        reveal_strlit("@");
        assert(tail@.len() == 15);
        assert(def_kw@.len() == 4);
        assert("@"@ =~= seq!['@']);
        assert(class_name@.subrange(0, class_name@.len() as int) =~= class_name@);
    }
    let mut t: usize = 0;
    while t < tail.len()
        invariant
            t <= tail@.len(),
            pat@ == seq!['@'] + class_name@ + tail@.subrange(0, t as int),
        decreases tail@.len() - t,
    {
        pat.push(tail[t]);
        t += 1;
        assert(pat@ =~= seq!['@'] + class_name@ + tail@.subrange(0, t as int));
    }
    assert(pat@ =~= decorator_prefix(class_name@)) by {
        assert(tail@.subrange(0, tail@.len() as int) =~= tail@);
    }
    let plen: usize = pat.len();
    let n: usize = content.len();
    let mut steps: Vec<UpgradeStep> = Vec::new();
    let mut from: usize = 0;
    assert(steps_view(steps@) =~= Seq::empty());
    loop
        invariant
            from <= n,
            n == content@.len(),
            plen == pat@.len(),
            plen >= 16,
            def_kw@ == "def "@,
            def_kw@.len() == 4,
            pat@ == decorator_prefix(class_name@),
            steps_view(steps@) + steps_from(content@, pat@, from as int) == file_steps(
                content@,
                class_name@,
            ),
        decreases n - from,
    {
        let p = match find(content, pat.as_slice(), from) {
            Some(p) => p,
            None => {
                assert(steps_view(steps@) + Seq::<StepModel>::empty() =~= steps_view(steps@));
                return steps;
            },
        };
        let ghost before = steps_view(steps@);
        match matching_delimiter(content, p + plen - 1, '(', ')') {
            Some(close) => {
                match find(content, def_kw.as_slice(), close) {
                    Some(d) => {
                        match find_char(content, '(', d + 4) {
                            Some(q) => {
                                let name = trimmed(slice(content, d + 4, q).as_slice());
                                let args = slice(content, p + plen, close);
                                let step = step_from(name.as_slice(), args.as_slice());
                                assert(steps_view(steps@.push(step)) =~= before.push(step@));
                                steps.push(step);
                            },
                            None => {},
                        }
                    },
                    None => {},
                }
            },
            None => {},
        }
        assert(steps_view(steps@) =~= before + step_at(content@, pat@, p as int));
        assert((before + step_at(content@, pat@, p as int)) + steps_from(content@, pat@, p + 1)
            =~= before + (step_at(content@, pat@, p as int) + steps_from(content@, pat@, p + 1)));
        from = p + 1;
    }
}

/// Extract upgrade steps from `@ClassName.register_step(...)` decorators
/// in the text of one file.
pub fn extract_steps_from_decorators(content: &str, class_name: &str) -> (r: Result<
    Vec<UpgradeStep>,
    BridgeError,
>)
    ensures
        r is Ok,
        steps_view(r.unwrap()@) == file_steps(content@, class_name@),
{
    let c = chars_of(content);
    let k = chars_of(class_name);
    Ok(steps_in(c.as_slice(), k.as_slice()))
}

/// An entry of a directory that the search passes over: hidden entries,
/// build caches and virtual environments.
pub open spec fn excluded_entry(name: Seq<char>) -> bool {
    (name.len() > 0 && name[0] == '.') || name == "__pycache__"@ || name == "venv"@
}

/// Whether the search for sources passes over a directory entry.
pub fn is_excluded_entry(name: &str) -> (r: bool)
    ensures
        r == excluded_entry(name@),
{
    let n = chars_of(name);
    (n.len() > 0 && n[0] == '.') || is_text(n.as_slice(), "__pycache__") || is_text(
        n.as_slice(),
        "venv",
    )
}

/// Whether a file name is that of a source file.
pub fn is_source_file(name: &str) -> (r: bool)
    ensures
        r == ends_with(name@, ".py"@),
{
    let n = chars_of(name);
    let ext = chars_of(".py");
    finishes_with(n.as_slice(), ext.as_slice())
}

/// The steps that the first `n` files declare for `class_name`, file after
/// file; only source files count.
pub open spec fn sources_steps(files: Seq<(Seq<char>, Seq<char>)>, class_name: Seq<char>, n: int)
    -> Seq<StepModel>
    decreases n,
{
    if n <= 0 || n > files.len() {
        Seq::empty()
    } else if ends_with(files[n - 1].0, ".py"@) {
        sources_steps(files, class_name, n - 1) + file_steps(files[n - 1].1, class_name)
    } else {
        sources_steps(files, class_name, n - 1)
    }
}

/// All steps that the given files declare for `class_name`.
pub open spec fn package_steps(files: Seq<(Seq<char>, Seq<char>)>, class_name: Seq<char>) -> Seq<
    StepModel,
> {
    sources_steps(files, class_name, files.len() as int)
}

/// Collects the steps of a class over the files of a package, in the
/// order in which the files are given.
pub fn search_decorators(sources: &Vec<SourceFile>, class_name: &str) -> (steps: Vec<UpgradeStep>)
    ensures
        steps_view(steps@) == package_steps(crate::records::sources_view(sources@), class_name@),
{
    let class = chars_of(class_name);
    let ghost files = crate::records::sources_view(sources@);
    let mut steps: Vec<UpgradeStep> = Vec::new();
    let mut n: usize = 0;
    assert(steps_view(steps@) =~= Seq::empty());
    while n < sources.len()
        invariant
            n <= sources@.len(),
            files == crate::records::sources_view(sources@),
            class@ == class_name@,
            steps_view(steps@) == sources_steps(files, class_name@, n as int),
        decreases sources@.len() - n,
    {
        let file = &sources[n];
        assert(files[n as int] == (file.name@, file.content@));
        if is_source_file(file.name.as_str()) {
            let text = chars_of(file.content.as_str());
            let mut found = steps_in(text.as_slice(), class.as_slice());
            let ghost before = steps_view(steps@);
            let ghost added = steps_view(found@);
            let ghost old_steps = steps@;
            let ghost got = found@;
            steps.append(&mut found);
            assert(steps_view(old_steps + got) =~= before + added);
        }
        n += 1;
    }
    steps
}

/// Search the files of a package tree for the decorators of a class and
/// add the steps they declare to `steps`, in the order of the files.
pub fn search_decorators_recursive(
    sources: &Vec<SourceFile>,
    class_name: &str,
    steps: &mut Vec<UpgradeStep>,
)
    ensures
        steps_view(final(steps)@) == steps_view(old(steps)@) + package_steps(
            crate::records::sources_view(sources@),
            class_name@,
        ),
{
    let mut found = search_decorators(sources, class_name);
    let ghost before = steps@;
    let ghost added = found@;
    steps.append(&mut found);
    assert(steps_view(before + added) =~= steps_view(before) + steps_view(added));
}

/// Extract the steps that decorators declare for `class_name` anywhere in
/// the package. Finding none is reported as not found.
pub fn extract_decorator_based_attribute(
    class_name: &str,
    _attribute: &str,
    sources: &Vec<SourceFile>,
) -> (r: Result<Vec<UpgradeStep>, BridgeError>)
    ensures
        match r {
            Ok(steps) => steps@.len() > 0 && steps_view(steps@) == package_steps(
                crate::records::sources_view(sources@),
                class_name@,
            ),
            Err(e) => e.is_not_found() && package_steps(
                crate::records::sources_view(sources@),
                class_name@,
            ).len() == 0,
        },
{
    let steps = search_decorators(sources, class_name);
    if steps.len() == 0 {
        return Err(BridgeError::PluginNotFound(String::from_str(class_name)));
    }
    Ok(steps)
}

} // verus!
