//! What holds of the steps that decorators declare, file by file and over
//! the files of a package.

use crate::decorator_processor::{
    apply_args, decorator_prefix, default_step, file_steps, package_steps,
    sources_steps, step_at, step_of, steps_from,
};
use crate::records::StepModel;
use crate::text::{ends_with, find_char_from, find_from, occurs_at, split, trim};
use crate::utils::match_of;
use vstd::prelude::*;

verus! {

/// The key of a decorator argument `key=value`, if the argument has one.
pub open spec fn arg_key(raw: Seq<char>) -> Option<Seq<char>> {
    match find_char_from(trim(raw), '=', 0) {
        Some(e) => Some(trim(trim(raw).subrange(0, e))),
        None => None,
    }
}

/// None of the arguments is named `key`.
pub open spec fn no_arg_named(args: Seq<Seq<char>>, key: Seq<char>) -> bool {
    forall|i: int| 0 <= i < args.len() ==> arg_key(#[trigger] args[i]) != Some(key)
}

proof fn lemma_name_stays(step: StepModel, args: Seq<Seq<char>>, n: int)
    requires
        0 <= n <= args.len(),
    ensures
        apply_args(step, args, n).name == step.name,
        apply_args(step, args, n).func == step.func,
    decreases n,
{
    if n > 0 {
        lemma_name_stays(step, args, n - 1);
    }
}

proof fn lemma_priority_stays(step: StepModel, args: Seq<Seq<char>>, n: int)
    requires
        0 <= n <= args.len(),
        no_arg_named(args, "priority"@),
    ensures
        apply_args(step, args, n).priority == step.priority,
    decreases n,
{
    if n > 0 {
        lemma_priority_stays(step, args, n - 1);
        assert(arg_key(args[n - 1]) != Some("priority"@));
    }
}

/// A step has the name of its function, whatever the decorator's
/// arguments say; and where no argument is named `priority`, its priority
/// is 100.
pub proof fn law_step_name_and_default_priority(func_name: Seq<char>, args: Seq<char>)
    ensures
        step_of(func_name, args).name == func_name,
        step_of(func_name, args).func.name == func_name,
        no_arg_named(split(args, ','), "priority"@) ==> step_of(func_name, args).priority == 100,
{
    let parts = split(args, ',');
    lemma_name_stays(default_step(func_name), parts, parts.len() as int);
    if no_arg_named(parts, "priority"@) {
        lemma_priority_stays(default_step(func_name), parts, parts.len() as int);
    }
}

proof fn lemma_find_none(s: Seq<char>, pat: Seq<char>, from: int)
    requires
        forall|x: int| from <= x ==> !occurs_at(s, pat, x),
    ensures
        find_from(s, pat, from) is None,
    decreases s.len() - from + 1,
{
    if !(from < 0 || from + pat.len() > s.len()) {
        assert(!occurs_at(s, pat, from));
        lemma_find_none(s, pat, from + 1);
    }
}

proof fn lemma_find_first(s: Seq<char>, pat: Seq<char>, from: int, p: int)
    requires
        0 <= from <= p,
        occurs_at(s, pat, p),
        forall|x: int| from <= x < p ==> !occurs_at(s, pat, x),
    ensures
        find_from(s, pat, from) == Some(p),
    decreases p - from,
{
    if from < p {
        assert(!occurs_at(s, pat, from));
        lemma_find_first(s, pat, from + 1, p);
    }
}

/// One decorator, one step: a file in which the decorator of a class
/// stands at exactly one place `p`, with its parentheses closed at
/// `close`, the next definition keyword after them at `d` and the next
/// opening parenthesis after that at `q`, declares exactly one step. The
/// step has the name that stands between the keyword and the parenthesis
/// and is described by the text between the decorator's parentheses.
pub proof fn law_one_decorator_one_step(
    content: Seq<char>,
    class_name: Seq<char>,
    p: int,
    close: int,
    d: int,
    q: int,
)
    requires
        occurs_at(content, decorator_prefix(class_name), p),
        forall|x: int| x != p ==> !occurs_at(content, decorator_prefix(class_name), x),
        match_of(content, '(', ')', p + decorator_prefix(class_name).len() - 1) == Some(close),
        find_from(content, "def "@, close) == Some(d),
        find_char_from(content, '(', d + 4) == Some(q),
    ensures
        file_steps(content, class_name) == seq![
            step_of(
                trim(content.subrange(d + 4, q)),
                content.subrange(p + decorator_prefix(class_name).len(), close),
            ),
        ],
        file_steps(content, class_name).len() == 1,
        file_steps(content, class_name)[0].name == trim(content.subrange(d + 4, q)),
{
    let pat = decorator_prefix(class_name);
    reveal_strlit(".register_step(");
    reveal_strlit("@");
    assert(pat.len() >= 16);
    lemma_find_first(content, pat, 0, p);
    lemma_find_none(content, pat, p + 1);
    assert(steps_from(content, pat, p + 1) =~= Seq::<StepModel>::empty());
    let one = step_at(content, pat, p);
    assert(steps_from(content, pat, 0) =~= one + steps_from(content, pat, p + 1));
    assert(one + Seq::<StepModel>::empty() =~= one);
    law_step_name_and_default_priority(
        trim(content.subrange(d + 4, q)),
        content.subrange(p + pat.len(), close),
    );
}

/// A file without the decorator of a class declares no step for it.
pub proof fn law_no_decorator_no_step(content: Seq<char>, class_name: Seq<char>)
    requires
        forall|x: int| !occurs_at(content, decorator_prefix(class_name), x),
    ensures
        file_steps(content, class_name).len() == 0,
{
    lemma_find_none(content, decorator_prefix(class_name), 0);
}

/// The steps of a package are the steps of its source files, file after
/// file: for two source files, those of the first, then those of the
/// second. So two files with one decorator each give two steps.
pub proof fn law_two_files_add_up(
    a: (Seq<char>, Seq<char>),
    b: (Seq<char>, Seq<char>),
    class_name: Seq<char>,
)
    requires
        ends_with(a.0, ".py"@),
        ends_with(b.0, ".py"@),
    ensures
        package_steps(seq![a, b], class_name) == file_steps(a.1, class_name) + file_steps(
            b.1,
            class_name,
        ),
        file_steps(a.1, class_name).len() == 1 && file_steps(b.1, class_name).len() == 1
            ==> package_steps(seq![a, b], class_name).len() == 2 && package_steps(
            seq![a, b],
            class_name,
        )[0] == file_steps(a.1, class_name)[0] && package_steps(seq![a, b], class_name)[1]
            == file_steps(b.1, class_name)[0],
{
    let files = seq![a, b];
    assert(files[0] == a && files[1] == b);
    assert(sources_steps(files, class_name, 0) =~= Seq::<StepModel>::empty());
    assert(sources_steps(files, class_name, 1) =~= file_steps(a.1, class_name));
    assert(sources_steps(files, class_name, 2) =~= file_steps(a.1, class_name) + file_steps(
        b.1,
        class_name,
    ));
}

} // verus!
