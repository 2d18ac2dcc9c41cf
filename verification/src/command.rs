//! From a tool call to an `ibmcloud` command line, and from the command's
//! output to the text the tool call answers with.
use crate::args::{bool_arg_of, str_arg_of, u64_arg_of, ArgMap, ArgValue};
use crate::catalog::{
    always_placed, declares, find_tool, lemma_listed_tool_found, lemma_required_iff_always_placed,
    lemma_shared_params_are_strings, lemma_tool_schema, lemma_unshared_copied, lemma_tool_shape, param_copied, param_used,
    read_once, reads_key, requires_param, shared_param, step_agrees, step_always_places,
    step_copies, step_reads, step_shape, tool_index, steps_shaped, ArgKind, Step, ToolDef, ToolSpec, TOOL_COUNT,
};
use crate::entries::{spec_tool, tool_at};
use crate::text::{
    decimal, i32_to_decimal, lemma_decimal_laws, signed_decimal, str_eq, trim, trimmed, u64_to_decimal,
};
use vstd::prelude::*;
use vstd::utf8::{decode_utf8, valid_utf8};

verus! {

/// The characters of each string of a sequence.
pub open spec fn words_view(v: Seq<String>) -> Seq<Seq<char>> {
    v.map_values(|s: String| s@)
}

/// The words one recipe step adds, given the call's arguments.
pub open spec fn step_words(step: Step, args: Map<Seq<char>, ArgValue>) -> Seq<Seq<char>> {
    match step {
        Step::Word(w) => seq![w@],
        Step::Value(k) => match str_arg_of(args, k@) {
            Some(v) => seq![v],
            None => seq![Seq::<char>::empty()],
        },
        Step::OptionalValue(k) => match str_arg_of(args, k@) {
            Some(v) => seq![v],
            None => seq![],
        },
        Step::FlagValue(f, k) => match str_arg_of(args, k@) {
            Some(v) => seq![f@, v],
            None => seq![],
        },
        Step::Switch(f, k) => if bool_arg_of(args, k@) {
            seq![f@]
        } else {
            seq![]
        },
        Step::SwitchUnless(f, k) => if !bool_arg_of(args, k@) {
            seq![f@]
        } else {
            seq![]
        },
        Step::Count(f, k) => match u64_arg_of(args, k@) {
            Some(n) => seq![f@, decimal(n as nat)],
            None => seq![],
        },
        Step::CountOr(k, d) => match u64_arg_of(args, k@) {
            Some(n) => seq![decimal(n as nat)],
            None => seq![decimal(d as nat)],
        },
        Step::WordIfGiven(k, w) => if str_arg_of(args, k@) is Some {
            seq![w@]
        } else {
            seq![]
        },
        Step::WordByPresence(k, present, absent) => if str_arg_of(args, k@) is Some {
            seq![present@]
        } else {
            seq![absent@]
        },
    }
}

/// The words a whole recipe gives, step after step.
pub open spec fn recipe_words(recipe: Seq<Step>, args: Map<Seq<char>, ArgValue>) -> Seq<Seq<char>>
    decreases recipe.len(),
{
    if recipe.len() == 0 {
        seq![]
    } else {
        recipe_words(recipe.drop_last(), args) + step_words(recipe.last(), args)
    }
}

/// The command line of the tool at position `i`, without the program name.
pub open spec fn tool_words(i: int, args: Map<Seq<char>, ArgValue>) -> Seq<Seq<char>> {
    recipe_words(spec_tool(i).recipe, args)
}

/// The message for a tool name that the catalog does not hold.
pub open spec fn unknown_tool_message(name: Seq<char>) -> Seq<char> {
    "Unknown tool: "@ + name
}

/// What the command for a tool call is: its words, or the error for an unknown tool.
pub open spec fn spec_tool_command(name: Seq<char>, args: Map<Seq<char>, ArgValue>) -> Result<Seq<Seq<char>>, Seq<char>> {
    match tool_index(name) {
        Some(i) => Ok(tool_words(i, args)),
        None => Err(unknown_tool_message(name)),
    }
}

fn push_word(v: &mut Vec<String>, w: &str)
    ensures
        words_view(final(v)@) == words_view(old(v)@).push(w@),
{
    v.push(String::from_str(w));
    assert(words_view(final(v)@) =~= words_view(old(v)@).push(w@));
}

fn push_string(v: &mut Vec<String>, w: String)
    ensures
        words_view(final(v)@) == words_view(old(v)@).push(w@),
{
    let ghost wv = w@;
    v.push(w);
    assert(words_view(final(v)@) =~= words_view(old(v)@).push(wv));
}

/// Appends the words of one recipe step.
fn push_step(v: &mut Vec<String>, step: Step, args: &ArgMap)
    ensures
        words_view(final(v)@) == words_view(old(v)@) + step_words(step, args@),
{
    let ghost before = words_view(v@);
    let ghost expected = step_words(step, args@);
    match step {
        Step::Word(w) => {
            push_word(v, w);
            assert(words_view(v@) =~= before + expected);
        },
        Step::Value(k) => match args.str_arg(k) {
            Some(s) => {
                push_word(v, s);
                assert(words_view(v@) =~= before + expected);
            },
            None => {
                push_string(v, String::new());
                assert(words_view(v@) =~= before + expected);
            },
        },
        Step::OptionalValue(k) => match args.str_arg(k) {
            Some(s) => push_word(v, s),
            None => {},
        },
        Step::FlagValue(f, k) => match args.str_arg(k) {
            Some(s) => {
                push_word(v, f);
                push_word(v, s);
            },
            None => {},
        },
        Step::Switch(f, k) => {
            if args.bool_arg(k) {
                push_word(v, f);
            }
        },
        Step::SwitchUnless(f, k) => {
            if !args.bool_arg(k) {
                push_word(v, f);
            }
        },
        Step::Count(f, k) => match args.u64_arg(k) {
            Some(n) => {
                push_word(v, f);
                push_string(v, u64_to_decimal(n));
            },
            None => {},
        },
        Step::CountOr(k, d) => match args.u64_arg(k) {
            Some(n) => push_string(v, u64_to_decimal(n)),
            None => push_string(v, u64_to_decimal(d)),
        },
        Step::WordIfGiven(k, w) => {
            if args.str_arg(k).is_some() {
                push_word(v, w);
            }
        },
        Step::WordByPresence(k, present, absent) => {
            if args.str_arg(k).is_some() {
                push_word(v, present);
            } else {
                push_word(v, absent);
            }
        },
    }
    assert(words_view(v@) =~= before + expected);
}

/// The command line that a tool's recipe makes of the call's arguments.
pub fn build_command(tool: &ToolDef, args: &ArgMap) -> (r: Vec<String>)
    ensures
        words_view(r@) == recipe_words(tool.recipe@, args@),
{
    let mut r: Vec<String> = Vec::new();
    let mut k: usize = 0;
    while k < tool.recipe.len()
        invariant
            k <= tool.recipe@.len(),
            words_view(r@) == recipe_words(tool.recipe@.take(k as int), args@),
        decreases tool.recipe@.len() - k,
    {
        assert(tool.recipe@.take(k + 1).drop_last() =~= tool.recipe@.take(k as int));
        push_step(&mut r, tool.recipe[k], args);
        k += 1;
    }
    assert(tool.recipe@.take(k as int) =~= tool.recipe@);
    r
}

/// The command line for a call of the tool `name`, or the error for an unknown tool.
pub fn tool_command(name: &str, args: &ArgMap) -> (r: Result<Vec<String>, String>)
    ensures
        match (r, spec_tool_command(name@, args@)) {
            (Ok(v), Ok(w)) => words_view(v@) == w,
            (Err(e), Err(m)) => e@ == m,
            _ => false,
        },
{
    match find_tool(name) {
        Some(i) => {
            let t = tool_at(i);
            Ok(build_command(&t, args))
        },
        None => Err(String::from_str("Unknown tool: ").concat(name)),
    }
}

/// Whether a value, read as an argument of JSON type `kind`, reads as no
/// argument at all: not a string for a string, not `true` for a boolean, not
/// an unsigned integer within `u64` for a number.
pub open spec fn reads_as_absent(v: ArgValue, kind: ArgKind) -> bool {
    match kind {
        ArgKind::Text => !(v is Str),
        ArgKind::Boolean => !(v matches ArgValue::Bool(b) && b),
        ArgKind::Number => !(v is UInt),
    }
}

/// Whether the step, if it reads `key`, reads it as JSON type `kind`.
pub open spec fn reads_key_as(s: Step, key: Seq<char>, kind: ArgKind) -> bool {
    match step_reads(s) {
        Some((k, kd)) => k@ == key ==> kd == kind,
        None => true,
    }
}

proof fn lemma_step_ignores(
    s: Step,
    m: Map<Seq<char>, ArgValue>,
    key: Seq<char>,
    v: ArgValue,
    kind: ArgKind,
)
    requires
        reads_as_absent(v, kind),
        reads_key_as(s, key, kind),
    ensures
        step_words(s, m.insert(key, v)) == step_words(s, m.remove(key)),
{
    let a = m.insert(key, v);
    let b = m.remove(key);
    assert forall|o: Seq<char>| o != key implies str_arg_of(a, o) == str_arg_of(b, o) && bool_arg_of(a, o)
        == bool_arg_of(b, o) && u64_arg_of(a, o) == u64_arg_of(b, o) by {
        assert(a.contains_key(o) == b.contains_key(o));
        if a.contains_key(o) {
            assert(a[o] == b[o]);
        }
    }
    assert(!b.contains_key(key));
    assert(a.contains_key(key) && a[key] == v);
}

proof fn lemma_recipe_ignores(
    r: Seq<Step>,
    m: Map<Seq<char>, ArgValue>,
    key: Seq<char>,
    v: ArgValue,
    kind: ArgKind,
)
    requires
        reads_as_absent(v, kind),
        forall|k: int| 0 <= k < r.len() ==> reads_key_as(#[trigger] r[k], key, kind),
    ensures
        recipe_words(r, m.insert(key, v)) == recipe_words(r, m.remove(key)),
    decreases r.len(),
{
    if r.len() > 0 {
        assert(r.last() == r[r.len() - 1]);
        lemma_step_ignores(r.last(), m, key, v, kind);
        assert forall|k: int| 0 <= k < r.drop_last().len() implies reads_key_as(
            #[trigger] r.drop_last()[k],
            key,
            kind,
        ) by {
            assert(r.drop_last()[k] == r[k]);
        }
        lemma_recipe_ignores(r.drop_last(), m, key, v, kind);
    }
}

/// A wrongly typed argument for a property of a tool's schema gives the same
/// command line as no argument for it: a value that is not a string for a
/// string property, not `true` for a boolean one, not an unsigned integer
/// within `u64` for a number one is treated as absent.
pub proof fn lemma_ill_typed_argument_is_absent(i: int, j: int, m: Map<Seq<char>, ArgValue>, v: ArgValue)
    requires
        0 <= i < TOOL_COUNT,
        0 <= j < spec_tool(i).params.len(),
        reads_as_absent(v, spec_tool(i).params[j].kind),
    ensures
        tool_words(i, m.insert(spec_tool(i).params[j].name@, v)) == tool_words(
            i,
            m.remove(spec_tool(i).params[j].name@),
        ),
        spec_tool_command(spec_tool(i).name@, m.insert(spec_tool(i).params[j].name@, v))
            == spec_tool_command(spec_tool(i).name@, m.remove(spec_tool(i).params[j].name@)),
{
    lemma_tool_schema(i);
    lemma_listed_tool_found(i);
    let t = spec_tool(i);
    let p = t.params[j];
    assert forall|k: int| 0 <= k < t.recipe.len() implies reads_key_as(#[trigger] t.recipe[k], p.name@, p.kind) by {
        assert(step_agrees(t, t.recipe[k]));
        if let Some((kk, kd)) = step_reads(t.recipe[k]) {
            if kk@ == p.name@ {
                let j2 = choose|j2: int|
                    0 <= j2 < t.params.len() && (#[trigger] t.params[j2]).name@ == kk@
                        && t.params[j2].kind == kd;
                if j2 != j {
                    assert(t.params[j2].name@ != t.params[j].name@);
                }
            }
        }
    }
    lemma_recipe_ignores(t.recipe, m, p.name@, v, p.kind);
}

proof fn lemma_recipe_has_step_words(r: Seq<Step>, m: Map<Seq<char>, ArgValue>, k: int, w: Seq<char>)
    requires
        0 <= k < r.len(),
        step_words(r[k], m).contains(w),
    ensures
        recipe_words(r, m).contains(w),
    decreases r.len(),
{
    let before = recipe_words(r.drop_last(), m);
    let last = step_words(r.last(), m);
    if k == r.len() - 1 {
        let x = choose|x: int| 0 <= x < last.len() && last[x] == w;
        assert((before + last)[before.len() + x] == w);
    } else {
        assert(r.drop_last()[k] == r[k]);
        lemma_recipe_has_step_words(r.drop_last(), m, k, w);
        let x = choose|x: int| 0 <= x < before.len() && before[x] == w;
        assert((before + last)[x] == w);
    }
}

proof fn lemma_json_output_keeps(a: Seq<Seq<char>>, w: Seq<char>)
    requires
        a.contains(w),
    ensures
        with_json_output(a).contains(w),
{
    let x = choose|x: int| 0 <= x < a.len() && a[x] == w;
    if wants_json_output(a) {
        assert((a + seq!["--output"@, "json"@])[x] == w);
    }
}

/// Every string or number argument given for a property of a tool's schema is
/// copied onto the tool's command line (and so onto the one `ibmcloud` runs
/// with): a string as it is, a number in decimal. The one exception is the
/// `resource_id` of `ibmcloud_resource_tags`, whose presence only adds
/// `--tag-type user`.
pub proof fn lemma_given_arguments_copied(i: int, j: int, m: Map<Seq<char>, ArgValue>)
    requires
        0 <= i < TOOL_COUNT,
        0 <= j < spec_tool(i).params.len(),
        spec_tool(i).name@ != "ibmcloud_resource_tags"@,
    ensures
        spec_tool(i).params[j].kind == ArgKind::Text ==> (str_arg_of(m, spec_tool(i).params[j].name@) matches Some(v)
            ==> tool_words(i, m).contains(v) && with_json_output(tool_words(i, m)).contains(v)),
        spec_tool(i).params[j].kind == ArgKind::Number ==> (u64_arg_of(m, spec_tool(i).params[j].name@) matches Some(n)
            ==> tool_words(i, m).contains(decimal(n as nat)) && with_json_output(tool_words(i, m)).contains(
            decimal(n as nat),
        )),
{
    lemma_tool_schema(i);
    let t = spec_tool(i);
    let p = t.params[j];
    if p.kind != ArgKind::Boolean {
        assert(param_copied(t, t.params[j]));
        let k = choose|k: int| 0 <= k < t.recipe.len() && step_copies(#[trigger] t.recipe[k], p);
        let s = t.recipe[k];
        if p.kind == ArgKind::Text {
            if let Some(v) = str_arg_of(m, p.name@) {
                assert(step_words(s, m).contains(v)) by {
                    assert(step_words(s, m).last() == v);
                }
                lemma_recipe_has_step_words(t.recipe, m, k, v);
                lemma_json_output_keeps(tool_words(i, m), v);
            }
        } else {
            if let Some(n) = u64_arg_of(m, p.name@) {
                let w = decimal(n as nat);
                assert(step_words(s, m).contains(w)) by {
                    assert(step_words(s, m).last() == w);
                }
                lemma_recipe_has_step_words(t.recipe, m, k, w);
                lemma_json_output_keeps(tool_words(i, m), w);
            }
        }
    }
}

proof fn lemma_recipe_word_from_step(r: Seq<Step>, m: Map<Seq<char>, ArgValue>, w: Seq<char>)
    requires
        recipe_words(r, m).contains(w),
    ensures
        exists|k: int| 0 <= k < r.len() && step_words(#[trigger] r[k], m).contains(w),
    decreases r.len(),
{
    let before = recipe_words(r.drop_last(), m);
    let last = step_words(r.last(), m);
    let x = choose|x: int| 0 <= x < recipe_words(r, m).len() && recipe_words(r, m)[x] == w;
    if x < before.len() {
        assert(before[x] == w);
        lemma_recipe_word_from_step(r.drop_last(), m, w);
        let k = choose|k: int| 0 <= k < r.drop_last().len() && step_words(#[trigger] r.drop_last()[k], m).contains(w);
        assert(r.drop_last()[k] == r[k]);
    } else {
        assert(last[x - before.len()] == w);
        assert(r.last() == r[r.len() - 1]);
    }
}

proof fn lemma_step_empty_word(t: ToolSpec, s: Step, m: Map<Seq<char>, ArgValue>)
    requires
        step_agrees(t, s),
        step_shape(s),
        step_words(s, m).contains(Seq::<char>::empty()),
    ensures
        step_reads(s) matches Some((k, kind)) && kind == ArgKind::Text && (str_arg_of(m, k@) == Some(
            Seq::<char>::empty(),
        ) || (s is Value && str_arg_of(m, k@) is None)),
{
    let ws = step_words(s, m);
    let x = choose|x: int| 0 <= x < ws.len() && ws[x] == Seq::<char>::empty();
    match s {
        Step::Count(_, k) => {
            if let Some(n) = u64_arg_of(m, k@) {
                lemma_decimal_laws(n as nat);
            }
        },
        Step::CountOr(k, d) => {
            match u64_arg_of(m, k@) {
                Some(n) => lemma_decimal_laws(n as nat),
                None => lemma_decimal_laws(d as nat),
            }
        },
        _ => {},
    }
}

/// The empty word is on a tool's command line only where the call gave a
/// string property the empty string, or left out a required string property:
/// a word the recipe writes itself is never empty, a number never renders
/// empty, and an optional property that is left out adds no word at all.
pub proof fn lemma_empty_word_only_for_missing_text(i: int, m: Map<Seq<char>, ArgValue>, x: int)
    requires
        0 <= i < TOOL_COUNT,
        0 <= x < tool_words(i, m).len(),
        tool_words(i, m)[x].len() == 0,
    ensures
        exists|j: int|
            0 <= j < spec_tool(i).params.len() && (#[trigger] spec_tool(i).params[j]).kind == ArgKind::Text && (
            str_arg_of(m, spec_tool(i).params[j].name@) == Some(Seq::<char>::empty()) || (
            spec_tool(i).params[j].required && str_arg_of(m, spec_tool(i).params[j].name@) is None)),
{
    lemma_tool_schema(i);
    lemma_tool_shape(i);
    let t = spec_tool(i);
    let e = Seq::<char>::empty();
    assert(tool_words(i, m)[x] =~= e);
    lemma_recipe_word_from_step(t.recipe, m, e);
    let k = choose|k: int| 0 <= k < t.recipe.len() && step_words(#[trigger] t.recipe[k], m).contains(e);
    let s = t.recipe[k];
    assert(step_agrees(t, s));
    assert(step_shape(s));
    lemma_step_empty_word(t, s, m);
    let (key, kind) = step_reads(s).unwrap();
    assert(declares(t, key, kind));
    let j = choose|j: int| 0 <= j < t.params.len() && (#[trigger] t.params[j]).name@ == key@ && t.params[j].kind == kind;
    if str_arg_of(m, key@) != Some(e) {
        assert(requires_param(t, key));
        let j2 = choose|j2: int| 0 <= j2 < t.params.len() && (#[trigger] t.params[j2]).name@ == key@ && t.params[j2].required;
        if j2 != j {
            assert(t.params[j2].name@ != t.params[j].name@);
        }
    }
    assert(t.params[j].kind == ArgKind::Text);
}

proof fn lemma_recipe_words_append(a: Seq<Step>, b: Seq<Step>, m: Map<Seq<char>, ArgValue>)
    ensures
        recipe_words(a + b, m) == recipe_words(a, m) + recipe_words(b, m),
    decreases b.len(),
{
    if b.len() == 0 {
        assert(a + b =~= a);
        assert(recipe_words(a, m) + recipe_words(b, m) =~= recipe_words(a, m));
    } else {
        assert((a + b).drop_last() =~= a + b.drop_last());
        assert((a + b).last() == b.last());
        lemma_recipe_words_append(a, b.drop_last(), m);
        assert(recipe_words(a + b, m) =~= recipe_words(a, m) + recipe_words(b, m));
    }
}

/// Whether two argument maps agree on every key but `key`.
pub open spec fn agree_off(m1: Map<Seq<char>, ArgValue>, m2: Map<Seq<char>, ArgValue>, key: Seq<char>) -> bool {
    forall|o: Seq<char>|
        o != key ==> (#[trigger] m1.contains_key(o)) == m2.contains_key(o) && (m1.contains_key(o) ==> m1[o] == m2[o])
}

proof fn lemma_recipe_off_key(r: Seq<Step>, m1: Map<Seq<char>, ArgValue>, m2: Map<Seq<char>, ArgValue>, key: Seq<char>)
    requires
        agree_off(m1, m2, key),
        forall|k: int| 0 <= k < r.len() ==> !reads_key(#[trigger] r[k], key),
    ensures
        recipe_words(r, m1) == recipe_words(r, m2),
    decreases r.len(),
{
    if r.len() > 0 {
        assert(r.last() == r[r.len() - 1]);
        let s = r.last();
        if let Some((k, _)) = step_reads(s) {
            assert(k@ != key);
            assert(m1.contains_key(k@) == m2.contains_key(k@));
        }
        assert(step_words(s, m1) == step_words(s, m2));
        assert forall|k: int| 0 <= k < r.drop_last().len() implies !reads_key(#[trigger] r.drop_last()[k], key) by {
            assert(r.drop_last()[k] == r[k]);
        }
        lemma_recipe_off_key(r.drop_last(), m1, m2, key);
    }
}

/// Whether `b` is `a` with one non-empty word put in at some place.
pub open spec fn adds_one_word(a: Seq<Seq<char>>, b: Seq<Seq<char>>) -> bool {
    exists|x: int, f: Seq<char>| 0 <= x <= a.len() && f.len() > 0 && b == a.insert(x, f)
}

/// A boolean property of a tool's schema set to `true` adds exactly one
/// word, its flag (such as `-f` for `force`), to the command line that the
/// same call without it gives, and changes nothing else. The one property that
/// works the other way round is `stream` of `ibmcloud_cf_logs`: leaving it out
/// adds `--recent`, and `true` leaves it off. (A boolean that is `false` reads
/// as left out: see [`lemma_ill_typed_argument_is_absent`].)
pub proof fn lemma_boolean_argument_adds_one_word(i: int, j: int, m: Map<Seq<char>, ArgValue>)
    requires
        0 <= i < TOOL_COUNT,
        0 <= j < spec_tool(i).params.len(),
        spec_tool(i).params[j].kind == ArgKind::Boolean,
    ensures
        ({
            let key = spec_tool(i).params[j].name@;
            let on = tool_words(i, m.insert(key, ArgValue::Bool(true)));
            let off = tool_words(i, m.remove(key));
            &&& key != "stream"@ ==> adds_one_word(off, on)
            &&& key == "stream"@ ==> adds_one_word(on, off)
        }),
{
    lemma_tool_schema(i);
    lemma_tool_shape(i);
    let t = spec_tool(i);
    let p = t.params[j];
    let key = p.name@;
    assert(param_used(t, t.params[j]));
    let k0 = choose|k: int| 0 <= k < t.recipe.len() && (step_reads(#[trigger] t.recipe[k]) matches Some((kk, _)) && kk@ == p.name@);
    assert(reads_key(t.recipe[k0], key));
    assert(read_once(t, key));
    let s = t.recipe[k0];
    assert(step_agrees(t, s));
    assert(step_shape(s));
    let (kk, kind) = step_reads(s).unwrap();
    assert(declares(t, kk, kind));
    let j2 = choose|j2: int| 0 <= j2 < t.params.len() && (#[trigger] t.params[j2]).name@ == kk@ && t.params[j2].kind == kind;
    if j2 != j {
        assert(t.params[j2].name@ != t.params[j].name@);
    }
    assert(kind == ArgKind::Boolean);
    assert forall|k: int| 0 <= k < t.recipe.len() && k != k0 implies !reads_key(#[trigger] t.recipe[k], key) by {}
    lemma_switch_in_recipe(t.recipe, k0, m, key);
}

proof fn lemma_one_reader(
    r: Seq<Step>,
    k0: int,
    m1: Map<Seq<char>, ArgValue>,
    m2: Map<Seq<char>, ArgValue>,
    key: Seq<char>,
)
    requires
        0 <= k0 < r.len(),
        agree_off(m1, m2, key),
        forall|k: int| 0 <= k < r.len() && k != k0 ==> !reads_key(#[trigger] r[k], key),
    ensures
        recipe_words(r, m1) == recipe_words(r.take(k0), m1) + step_words(r[k0], m1) + recipe_words(r.skip(k0 + 1), m1),
        recipe_words(r, m2) == recipe_words(r.take(k0), m1) + step_words(r[k0], m2) + recipe_words(r.skip(k0 + 1), m1),
{
    let s = r[k0];
    let before = r.take(k0);
    let after = r.skip(k0 + 1);
    assert(r =~= before + seq![s] + after);
    assert forall|k: int| 0 <= k < before.len() implies !reads_key(#[trigger] before[k], key) by {
        assert(before[k] == r[k]);
    }
    assert forall|k: int| 0 <= k < after.len() implies !reads_key(#[trigger] after[k], key) by {
        assert(after[k] == r[k0 + 1 + k]);
    }
    lemma_recipe_off_key(before, m1, m2, key);
    lemma_recipe_off_key(after, m1, m2, key);
    lemma_recipe_words_append(before + seq![s], after, m1);
    lemma_recipe_words_append(before, seq![s], m1);
    lemma_recipe_words_append(before + seq![s], after, m2);
    lemma_recipe_words_append(before, seq![s], m2);
    assert(seq![s].drop_last() =~= Seq::<Step>::empty());
    assert(seq![s].last() == s);
    assert(recipe_words(Seq::<Step>::empty(), m1).len() == 0);
    assert(recipe_words(Seq::<Step>::empty(), m2).len() == 0);
    assert(recipe_words(seq![s], m1) =~= step_words(s, m1));
    assert(recipe_words(seq![s], m2) =~= step_words(s, m2));
}

proof fn lemma_switch_in_recipe(r: Seq<Step>, k0: int, m: Map<Seq<char>, ArgValue>, key: Seq<char>)
    requires
        0 <= k0 < r.len(),
        reads_key(r[k0], key),
        r[k0] is Switch || r[k0] is SwitchUnless,
        step_shape(r[k0]),
        forall|k: int| 0 <= k < r.len() && k != k0 ==> !reads_key(#[trigger] r[k], key),
    ensures
        r[k0] is Switch ==> adds_one_word(recipe_words(r, m.remove(key)), recipe_words(r, m.insert(key, ArgValue::Bool(true)))),
        r[k0] is SwitchUnless ==> adds_one_word(recipe_words(r, m.insert(key, ArgValue::Bool(true))), recipe_words(r, m.remove(key))),
{
    let m1 = m.insert(key, ArgValue::Bool(true));
    let m2 = m.remove(key);
    let s = r[k0];
    lemma_agree_off(m, key, ArgValue::Bool(true));
    lemma_one_reader(r, k0, m1, m2, key);
    let wb = recipe_words(r.take(k0), m1);
    let wa = recipe_words(r.skip(k0 + 1), m1);
    let on = recipe_words(r, m1);
    let off = recipe_words(r, m2);
    assert(bool_arg_of(m1, key));
    assert(!bool_arg_of(m2, key));
    match s {
        Step::Switch(f, _) => {
            assert(off =~= wb + wa);
            assert(on =~= off.insert(wb.len() as int, f@));
        },
        Step::SwitchUnless(f, _) => {
            assert(on =~= wb + wa);
            assert(off =~= on.insert(wb.len() as int, f@));
        },
        _ => {},
    }
}

proof fn lemma_agree_off(m: Map<Seq<char>, ArgValue>, key: Seq<char>, v: ArgValue)
    ensures
        agree_off(m.insert(key, v), m.remove(key), key),
{
    let m1 = m.insert(key, v);
    let m2 = m.remove(key);
    assert forall|o: Seq<char>|
        o != key implies (#[trigger] m1.contains_key(o)) == m2.contains_key(o) && (m1.contains_key(o) ==> m1[o] == m2[o]) by {}
}

/// Whether `b` is `a` with the words `ws` put in at one place.
pub open spec fn inserts_words(a: Seq<Seq<char>>, b: Seq<Seq<char>>, ws: Seq<Seq<char>>) -> bool {
    exists|x: int| 0 <= x <= a.len() && b == a.take(x) + ws + a.skip(x)
}

/// Whether `b` is `a` with the word `w` in place of one word `old`.
pub open spec fn replaces_word(a: Seq<Seq<char>>, b: Seq<Seq<char>>, old: Seq<char>, w: Seq<char>) -> bool {
    exists|x: int| 0 <= x < a.len() && a[x] == old && b == a.update(x, w)
}

/// The step that reads a property of a tool that only one step reads, with
/// what the schema and the recipe's shape say of it.
proof fn lemma_reader(i: int, j: int) -> (k0: int)
    requires
        0 <= i < TOOL_COUNT,
        0 <= j < spec_tool(i).params.len(),
        !shared_param(spec_tool(i), spec_tool(i).params[j]),
    ensures
        0 <= k0 < spec_tool(i).recipe.len(),
        reads_key(spec_tool(i).recipe[k0], spec_tool(i).params[j].name@),
        forall|k: int|
            0 <= k < spec_tool(i).recipe.len() && k != k0 ==> !reads_key(
                #[trigger] spec_tool(i).recipe[k],
                spec_tool(i).params[j].name@,
            ),
        step_shape(spec_tool(i).recipe[k0]),
        spec_tool(i).params[j].kind != ArgKind::Boolean ==> step_copies(spec_tool(i).recipe[k0], spec_tool(i).params[j]),
        spec_tool(i).params[j].required <==> step_always_places(spec_tool(i).recipe[k0], spec_tool(i).params[j]),
{
    lemma_tool_schema(i);
    lemma_tool_shape(i);
    lemma_required_iff_always_placed(i, j);
    if spec_tool(i).params[j].kind != ArgKind::Boolean {
        lemma_unshared_copied(i, j);
    }
    let t = spec_tool(i);
    assert(param_used(t, t.params[j]));
    assert(read_once(t, t.params[j].name@));
    lemma_reader_of(t, j)
}

proof fn lemma_reader_of(t: ToolSpec, j: int) -> (k0: int)
    requires
        0 <= j < t.params.len(),
        param_used(t, t.params[j]),
        read_once(t, t.params[j].name@),
        steps_shaped(t),
        t.params[j].kind != ArgKind::Boolean ==> param_copied(t, t.params[j]),
        t.params[j].required <==> always_placed(t, t.params[j]),
    ensures
        0 <= k0 < t.recipe.len(),
        reads_key(t.recipe[k0], t.params[j].name@),
        forall|k: int| 0 <= k < t.recipe.len() && k != k0 ==> !reads_key(#[trigger] t.recipe[k], t.params[j].name@),
        step_shape(t.recipe[k0]),
        t.params[j].kind != ArgKind::Boolean ==> step_copies(t.recipe[k0], t.params[j]),
        t.params[j].required <==> step_always_places(t.recipe[k0], t.params[j]),
{
    let p = t.params[j];
    let key = p.name@;
    let k0 = choose|k: int| 0 <= k < t.recipe.len() && (step_reads(#[trigger] t.recipe[k]) matches Some((kk, _)) && kk@ == p.name@);
    assert(reads_key(t.recipe[k0], key));
    assert(step_shape(t.recipe[k0]));
    if p.kind != ArgKind::Boolean {
        let k = choose|k: int| 0 <= k < t.recipe.len() && step_copies(#[trigger] t.recipe[k], p);
        assert(reads_key(t.recipe[k], key));
    }
    if p.required {
        let k = choose|k: int| 0 <= k < t.recipe.len() && step_always_places(#[trigger] t.recipe[k], p);
        assert(reads_key(t.recipe[k], key));
    }
    k0
}

/// A string property given a value `v` puts `v` on the command line and
/// changes nothing else there. If the property is required, `v` takes the
/// place of the empty word that the call without it gives; if it is optional,
/// the call without it has no word for it, and `v` is put in, alone or after
/// its flag (such as `-g` for a resource group). This holds of every string
/// property but the two that two steps read (see [`shared_param`]).
pub proof fn lemma_string_argument_words(i: int, j: int, m: Map<Seq<char>, ArgValue>, v: String)
    requires
        0 <= i < TOOL_COUNT,
        0 <= j < spec_tool(i).params.len(),
        spec_tool(i).params[j].kind == ArgKind::Text,
        !shared_param(spec_tool(i), spec_tool(i).params[j]),
    ensures
        ({
            let key = spec_tool(i).params[j].name@;
            let on = tool_words(i, m.insert(key, ArgValue::Str(v)));
            let off = tool_words(i, m.remove(key));
            &&& spec_tool(i).params[j].required ==> replaces_word(off, on, Seq::<char>::empty(), v@)
            &&& !spec_tool(i).params[j].required ==> (inserts_words(off, on, seq![v@]) || exists|f: Seq<char>|
                f.len() > 0 && inserts_words(off, on, seq![f, v@]))
        }),
{
    let t = spec_tool(i);
    let p = t.params[j];
    let key = p.name@;
    let k0 = lemma_reader(i, j);
    let m1 = m.insert(key, ArgValue::Str(v));
    let m2 = m.remove(key);
    lemma_agree_off(m, key, ArgValue::Str(v));
    lemma_one_reader(t.recipe, k0, m1, m2, key);
    let wb = recipe_words(t.recipe.take(k0), m1);
    let wa = recipe_words(t.recipe.skip(k0 + 1), m1);
    let on = tool_words(i, m1);
    let off = tool_words(i, m2);
    assert(str_arg_of(m1, key) == Some(v@));
    assert(str_arg_of(m2, key) is None);
    match t.recipe[k0] {
        Step::Value(_) => {
            assert(off =~= wb + seq![Seq::<char>::empty()] + wa);
            assert(off[wb.len() as int] == Seq::<char>::empty());
            assert(on =~= off.update(wb.len() as int, v@));
        },
        Step::OptionalValue(_) => {
            assert(off =~= wb + wa);
            assert(off.take(wb.len() as int) =~= wb);
            assert(off.skip(wb.len() as int) =~= wa);
            assert(inserts_words(off, on, seq![v@]));
        },
        Step::FlagValue(f, _) => {
            assert(off =~= wb + wa);
            assert(off.take(wb.len() as int) =~= wb);
            assert(off.skip(wb.len() as int) =~= wa);
            assert(on =~= off.take(wb.len() as int) + seq![f@, v@] + off.skip(wb.len() as int));
            assert(inserts_words(off, on, seq![f@, v@]));
        },
        _ => {},
    }
}

/// A number property given a value `n` puts `n` in decimal on the command
/// line and changes nothing else there. If the property is required, `n`
/// takes the place of the default that the call without it gives; if it is
/// optional, the call without it has no word for it, and `n` is put in after
/// its flag (such as `--lines` for a number of log lines).
pub proof fn lemma_number_argument_words(i: int, j: int, m: Map<Seq<char>, ArgValue>, n: u64)
    requires
        0 <= i < TOOL_COUNT,
        0 <= j < spec_tool(i).params.len(),
        spec_tool(i).params[j].kind == ArgKind::Number,
    ensures
        ({
            let key = spec_tool(i).params[j].name@;
            let on = tool_words(i, m.insert(key, ArgValue::UInt(n)));
            let off = tool_words(i, m.remove(key));
            &&& spec_tool(i).params[j].required ==> exists|d: u64| replaces_word(off, on, decimal(d as nat), decimal(n as nat))
            &&& !spec_tool(i).params[j].required ==> exists|f: Seq<char>|
                f.len() > 0 && inserts_words(off, on, seq![f, decimal(n as nat)])
        }),
{
    let t = spec_tool(i);
    let p = t.params[j];
    let key = p.name@;
    if shared_param(t, p) {
        lemma_shared_params_are_strings(i, j);
    }
    let k0 = lemma_reader(i, j);
    let m1 = m.insert(key, ArgValue::UInt(n));
    let m2 = m.remove(key);
    lemma_agree_off(m, key, ArgValue::UInt(n));
    lemma_one_reader(t.recipe, k0, m1, m2, key);
    let wb = recipe_words(t.recipe.take(k0), m1);
    let wa = recipe_words(t.recipe.skip(k0 + 1), m1);
    let on = tool_words(i, m1);
    let off = tool_words(i, m2);
    assert(u64_arg_of(m1, key) == Some(n));
    assert(u64_arg_of(m2, key) is None);
    match t.recipe[k0] {
        Step::CountOr(_, d) => {
            assert(off =~= wb + seq![decimal(d as nat)] + wa);
            assert(off[wb.len() as int] == decimal(d as nat));
            assert(on =~= off.update(wb.len() as int, decimal(n as nat)));
            assert(replaces_word(off, on, decimal(d as nat), decimal(n as nat)));
        },
        Step::Count(f, _) => {
            assert(off =~= wb + wa);
            assert(off.take(wb.len() as int) =~= wb);
            assert(off.skip(wb.len() as int) =~= wa);
            assert(on =~= off.take(wb.len() as int) + seq![f@, decimal(n as nat)] + off.skip(wb.len() as int));
            assert(inserts_words(off, on, seq![f@, decimal(n as nat)]));
        },
        _ => {},
    }
}

/// Whether a subcommand is one of those that can print JSON.
pub open spec fn is_json_subcommand(w: Seq<char>) -> bool {
    ||| w == "account"@
    ||| w == "resource"@
    ||| w == "iam"@
    ||| w == "catalog"@
    ||| w == "target"@
    ||| w == "regions"@
    ||| w == "api"@
}

/// Whether a word asks for an output format.
pub open spec fn is_output_option(w: Seq<char>) -> bool {
    w == "--output"@ || w == "-o"@
}

/// Whether a command line should have `--output json` added: its subcommand can
/// print JSON and it does not choose an output format itself.
pub open spec fn wants_json_output(a: Seq<Seq<char>>) -> bool {
    &&& a.len() > 0
    &&& is_json_subcommand(a[0])
    &&& forall|i: int| 0 <= i < a.len() ==> !is_output_option(#[trigger] a[i])
}

/// A command line with `--output json` added where it wants it.
pub open spec fn with_json_output(a: Seq<Seq<char>>) -> Seq<Seq<char>> {
    if wants_json_output(a) {
        a + seq!["--output"@, "json"@]
    } else {
        a
    }
}

/// Adding `--output json` twice adds it once: the result already names an output format.
pub proof fn lemma_json_output_idempotent(a: Seq<Seq<char>>)
    ensures
        with_json_output(with_json_output(a)) == with_json_output(a),
{
    if wants_json_output(a) {
        let b = a + seq!["--output"@, "json"@];
        assert(b[a.len() as int] == "--output"@);
        assert(is_output_option(b[a.len() as int]));
    }
}

/// Adding `--output json` keeps the command line's words, in order, and adds
/// either nothing or exactly `--output json` at the end.
pub proof fn lemma_json_output_extends(a: Seq<Seq<char>>)
    ensures
        with_json_output(a).len() >= a.len(),
        with_json_output(a).subrange(0, a.len() as int) == a,
        with_json_output(a).len() == a.len() || with_json_output(a).subrange(a.len() as int, with_json_output(a).len() as int) == seq!["--output"@, "json"@],
{
    if wants_json_output(a) {
        assert((a + seq!["--output"@, "json"@]).subrange(0, a.len() as int) =~= a);
        assert((a + seq!["--output"@, "json"@]).subrange(a.len() as int, (a.len() + 2) as int) =~= seq!["--output"@, "json"@]);
    } else {
        assert(a.subrange(0, a.len() as int) =~= a);
    }
}

/// The subcommands that get `--output json` are exactly `account`,
/// `resource`, `iam`, `catalog`, `target`, `regions` and `api`: a command line
/// that starts with one of them and names no output format (`--output` or
/// `-o`) gets `--output json` at its end; one that names an output format, or
/// starts with any other word, is left as it is.
pub proof fn lemma_json_subcommands(w: Seq<char>, rest: Seq<Seq<char>>)
    ensures
        ({
            let json = w == "account"@ || w == "resource"@ || w == "iam"@ || w == "catalog"@ || w == "target"@
                || w == "regions"@ || w == "api"@;
            let named = rest.contains("--output"@) || rest.contains("-o"@);
            &&& json && !named ==> with_json_output(seq![w] + rest) == seq![w] + rest + seq!["--output"@, "json"@]
            &&& !json ==> with_json_output(seq![w] + rest) == seq![w] + rest
            &&& named ==> with_json_output(seq![w] + rest) == seq![w] + rest
        }),
{
    reveal_strlit("account");
    reveal_strlit("resource");
    reveal_strlit("iam");
    reveal_strlit("catalog");
    reveal_strlit("target");
    reveal_strlit("regions");
    reveal_strlit("api");
    reveal_strlit("--output");
    reveal_strlit("-o");
    let a = seq![w] + rest;
    assert(a[0] == w);
    assert forall|x: int| 0 <= x < rest.len() implies a[x + 1] == rest[x] by {}
    if rest.contains("--output"@) {
        let x = choose|x: int| 0 <= x < rest.len() && rest[x] == "--output"@;
        assert(is_output_option(a[x + 1]));
    }
    if rest.contains("-o"@) {
        let x = choose|x: int| 0 <= x < rest.len() && rest[x] == "-o"@;
        assert(is_output_option(a[x + 1]));
    }
    if is_json_subcommand(w) && !rest.contains("--output"@) && !rest.contains("-o"@) {
        assert forall|x: int| 0 <= x < a.len() implies !is_output_option(#[trigger] a[x]) by {
            if x > 0 {
                assert(a[x] == rest[x - 1]);
                assert(!(rest[x - 1] == "--output"@));
                assert(!(rest[x - 1] == "-o"@));
            } else {
                assert(w.len() > 0 && w[0] != '-');
                assert("--output"@[0] == '-' && "-o"@[0] == '-');
            }
        }
    }
}

fn is_json_subcommand_word(w: &str) -> (r: bool)
    ensures
        r == is_json_subcommand(w@),
{
    str_eq(w, "account") || str_eq(w, "resource") || str_eq(w, "iam") || str_eq(w, "catalog")
        || str_eq(w, "target") || str_eq(w, "regions") || str_eq(w, "api")
}

/// The command line with `--output json` added when its subcommand can print
/// JSON and no output format is chosen yet.
pub fn json_output_args(args: Vec<String>) -> (r: Vec<String>)
    ensures
        words_view(r@) == with_json_output(words_view(args@)),
{
    let ghost a = words_view(args@);
    if args.len() == 0 {
        return args;
    }
    assert(a[0] == args@[0]@);
    if !is_json_subcommand_word(args[0].as_str()) {
        return args;
    }
    let mut i: usize = 0;
    while i < args.len()
        invariant
            i <= args@.len(),
            a == words_view(args@),
            forall|j: int| 0 <= j < i ==> !is_output_option(#[trigger] a[j]),
        decreases args@.len() - i,
    {
        assert(a[i as int] == args@[i as int]@);
        if str_eq(args[i].as_str(), "--output") || str_eq(args[i].as_str(), "-o") {
            return args;
        }
        i += 1;
    }
    let mut r = args;
    push_word(&mut r, "--output");
    push_word(&mut r, "json");
    assert(words_view(r@) =~= a + seq!["--output"@, "json"@]);
    r
}

/// What running the `ibmcloud` program gave.
#[derive(Debug)]
pub struct CommandOutput {
    /// Whether it exited with success.
    pub success: bool,
    /// Its exit code, when it exited with one.
    pub code: Option<i32>,
    /// The bytes it wrote to its standard output.
    pub stdout: Vec<u8>,
    /// The bytes it wrote to its standard error.
    pub stderr: Vec<u8>,
}

/// The text that lossy UTF-8 decoding makes of some bytes: what
/// `String::from_utf8_lossy` returns for them.
pub uninterp spec fn lossy_utf8(bytes: Seq<u8>) -> Seq<char>;

/// Decodes bytes as UTF-8, each invalid sequence becoming U+FFFD.
///
/// Trusted: calls `String::from_utf8_lossy`. Its result depends on the bytes
/// alone and is named `lossy_utf8`; std documents that bytes that are valid
/// UTF-8 decode to exactly the characters they encode, which is the one fact
/// stated of it here. How invalid sequences are replaced is left unsaid.
#[verifier::external_body]
fn decode_lossy(bytes: &Vec<u8>) -> (r: String)
    ensures
        r@ == lossy_utf8(bytes@),
        valid_utf8(bytes@) ==> r@ == decode_utf8(bytes@),
{
    String::from_utf8_lossy(bytes.as_slice()).into_owned()
}

/// The exit code that an error message reports: `-1` when there is none.
pub open spec fn reported_code(code: Option<i32>) -> int {
    match code {
        Some(c) => c as int,
        None => -1,
    }
}

/// The report of a failed command: its output, a line break, then its error
/// output after `Error: `, leaving out either part when it is empty.
pub open spec fn failure_text(out: Seq<char>, err: Seq<char>) -> Seq<char> {
    (if out.len() > 0 {
        out.push('\n')
    } else {
        seq![]
    }) + (if err.len() > 0 {
        "Error: "@ + err
    } else {
        seq![]
    })
}

/// The text of a finished command, given its decoded outputs: its trimmed
/// standard output on success (or a fixed message when that is empty); on
/// failure the trimmed standard output and standard error, or the exit code
/// when both are empty.
pub open spec fn spec_report(success: bool, code: Option<i32>, stdout: Seq<char>, stderr: Seq<char>) -> Result<Seq<char>, Seq<char>> {
    let out = trimmed(stdout);
    let err = trimmed(stderr);
    if success {
        Ok(
            if out.len() == 0 {
                "Command completed successfully"@
            } else {
                out
            },
        )
    } else {
        let msg = failure_text(out, err);
        Err(
            if msg.len() == 0 {
                "Command failed with exit code "@ + signed_decimal(reported_code(code))
            } else {
                msg
            },
        )
    }
}

/// The text of a finished command: its outputs decoded as lossy UTF-8, then reported.
pub open spec fn spec_command_result(o: CommandOutput) -> Result<Seq<char>, Seq<char>> {
    spec_report(o.success, o.code, lossy_utf8(o.stdout@), lossy_utf8(o.stderr@))
}

/// A command's answer is a success exactly when the command succeeded, and its
/// text is never empty.
pub proof fn lemma_report_faithful(success: bool, code: Option<i32>, stdout: Seq<char>, stderr: Seq<char>)
    ensures
        spec_report(success, code, stdout, stderr) is Ok <==> success,
        match spec_report(success, code, stdout, stderr) {
            Ok(t) => t.len() > 0,
            Err(e) => e.len() > 0,
        },
{
    reveal_strlit("Command completed successfully");
    reveal_strlit("Command failed with exit code ");
    reveal_strlit("Error: ");
}

/// On success the answer does not depend on the standard error, whatever it
/// holds (warnings of a newer version, progress text): it is the trimmed
/// standard output, or `Command completed successfully` when that is empty.
pub proof fn lemma_success_ignores_stderr(code: Option<i32>, stdout: Seq<char>, stderr1: Seq<char>, stderr2: Seq<char>)
    ensures
        spec_report(true, code, stdout, stderr1) == spec_report(true, code, stdout, stderr2),
        spec_report(true, code, stdout, stderr1) == Ok::<Seq<char>, Seq<char>>(
            if trimmed(stdout).len() == 0 {
                "Command completed successfully"@
            } else {
                trimmed(stdout)
            },
        ),
{
}

/// On failure the answer is an error that starts with the trimmed standard
/// output and a line break when there is any, ends with `Error: ` and the
/// trimmed standard error when there is any, and holds nothing else; when both
/// are empty it names the exit code, `-1` when the command gave none.
pub proof fn lemma_failure_report(code: Option<i32>, stdout: Seq<char>, stderr: Seq<char>)
    ensures
        spec_report(false, code, stdout, stderr) is Err,
        ({
            let e = spec_report(false, code, stdout, stderr)->Err_0;
            let out = trimmed(stdout);
            let err = trimmed(stderr);
            let head = if out.len() > 0 { out.push('\n') } else { seq![] };
            let tail = if err.len() > 0 { "Error: "@ + err } else { seq![] };
            &&& (out.len() > 0 || err.len() > 0) ==> e == head + tail
            &&& e.take(head.len() as int) == head
            &&& e.len() >= tail.len() && e.skip(e.len() - tail.len()) == tail
            &&& (out.len() == 0 && err.len() == 0) ==> e == "Command failed with exit code "@ + signed_decimal(
                reported_code(code),
            )
        }),
{
    reveal_strlit("Error: ");
    let out = trimmed(stdout);
    let err = trimmed(stderr);
    let head = if out.len() > 0 { out.push('\n') } else { seq![] };
    let tail = if err.len() > 0 { "Error: "@ + err } else { seq![] };
    let e = spec_report(false, code, stdout, stderr)->Err_0;
    if out.len() > 0 || err.len() > 0 {
        assert(failure_text(out, err) == head + tail);
        assert(e.take(head.len() as int) =~= head);
        assert(e.skip(e.len() - tail.len()) =~= tail);
    } else {
        assert(e.take(0) =~= head);
        assert(e.skip(e.len() as int) =~= tail);
    }
}

/// The characters of a string result.
pub open spec fn result_view(r: Result<String, String>) -> Result<Seq<char>, Seq<char>> {
    match r {
        Ok(s) => Ok(s@),
        Err(e) => Err(e@),
    }
}

/// The text of a finished command, given its decoded standard output and
/// standard error, as the tool call answers with it.
pub fn report(success: bool, code: Option<i32>, stdout: &str, stderr: &str) -> (r: Result<String, String>)
    ensures
        result_view(r) == spec_report(success, code, stdout@, stderr@),
{
    let out = trim(stdout);
    let err = trim(stderr);
    if success {
        if out.as_str().is_empty() {
            Ok(String::from_str("Command completed successfully"))
        } else {
            Ok(out)
        }
    } else {
        let mut msg = String::new();
        if !out.as_str().is_empty() {
            msg.append(out.as_str());
            crate::text::push_char(&mut msg, '\n');
        }
        if !err.as_str().is_empty() {
            msg.append("Error: ");
            msg.append(err.as_str());
        }
        assert(msg@ =~= failure_text(out@, err@));
        if msg.as_str().is_empty() {
            let code: i32 = match code {
                Some(c) => c,
                None => -1,
            };
            let mut m = String::from_str("Command failed with exit code ");
            m.append(i32_to_decimal(code).as_str());
            Err(m)
        } else {
            Err(msg)
        }
    }
}

/// The text of a finished command: its outputs decoded as lossy UTF-8, then
/// reported as [`report`] does.
pub fn command_result(o: &CommandOutput) -> (r: Result<String, String>)
    ensures
        result_view(r) == spec_command_result(*o),
{
    let out = decode_lossy(&o.stdout);
    let err = decode_lossy(&o.stderr);
    report(o.success, o.code, out.as_str(), err.as_str())
}

/// The text a tool call answers with, given what running its command gave:
/// a runner's error is reported as a failure to run `ibmcloud`.
pub open spec fn spec_run_result(out: Result<CommandOutput, String>) -> Result<Seq<char>, Seq<char>> {
    match out {
        Ok(o) => spec_command_result(o),
        Err(e) => Err("Failed to run ibmcloud: "@ + e@),
    }
}

/// The text a tool call answers with, given what one run of `ibmcloud` gave:
/// its output, or the error that kept it from starting.
pub fn run_result(out: Result<CommandOutput, String>) -> (r: Result<String, String>)
    ensures
        result_view(r) == spec_run_result(out),
{
    match out {
        Ok(o) => command_result(&o),
        Err(e) => Err(String::from_str("Failed to run ibmcloud: ").concat(e.as_str())),
    }
}

/// The `ibmcloud` arguments that a call of the tool `name` runs with (its
/// command line, with `--output json` where `with_json_output` adds it), or the
/// error for an unknown tool, which runs nothing.
pub open spec fn spec_call_tool(name: Seq<char>, args: Map<Seq<char>, ArgValue>) -> Result<Seq<Seq<char>>, Seq<char>> {
    match spec_tool_command(name, args) {
        Ok(words) => Ok(with_json_output(words)),
        Err(m) => Err(m),
    }
}

/// The `ibmcloud` arguments to run once for a call of the tool `name`, or the
/// error for an unknown tool, for which nothing is run.
pub fn call_tool(name: &str, args: &ArgMap) -> (r: Result<Vec<String>, String>)
    ensures
        match (r, spec_call_tool(name@, args@)) {
            (Ok(v), Ok(w)) => words_view(v@) == w,
            (Err(e), Err(m)) => e@ == m,
            _ => false,
        },
{
    match tool_command(name, args) {
        Ok(cmd) => Ok(json_output_args(cmd)),
        Err(e) => Err(e),
    }
}

} // verus!
