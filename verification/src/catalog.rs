//! The tools that the server offers: each one's name, description, input
//! schema and the recipe that turns its arguments into an `ibmcloud` command line.
use crate::entries::{lemma_rank, lemma_sorted_step, name_rank, sorted_position, spec_tool, tool_at};
use crate::text::{lemma_lex_lt_order, lex_lt, str_eq};
use vstd::prelude::*;

verus! {

/// The JSON type that a tool parameter takes.
#[derive(Clone, Copy, Debug, PartialEq, Eq, Structural)]
pub enum ArgKind {
    /// A JSON string.
    Text,
    /// A JSON boolean.
    Boolean,
    /// A JSON number.
    Number,
}

/// The name of a JSON type as an input schema writes it.
pub open spec fn kind_name(k: ArgKind) -> &'static str {
    match k {
        ArgKind::Text => "string",
        ArgKind::Boolean => "boolean",
        ArgKind::Number => "number",
    }
}

impl ArgKind {
    /// The name of this JSON type as an input schema writes it.
    pub fn schema_type(&self) -> (r: &'static str)
        ensures
            r == kind_name(*self),
    {
        match self {
            ArgKind::Text => "string",
            ArgKind::Boolean => "boolean",
            ArgKind::Number => "number",
        }
    }
}

/// One property of a tool's input schema.
#[derive(Clone, Copy, Debug)]
pub struct Param {
    /// The property's key in the arguments object.
    pub name: &'static str,
    /// The JSON type the property takes.
    pub kind: ArgKind,
    /// A human-readable description.
    pub description: &'static str,
    /// Whether the schema lists the property as required.
    pub required: bool,
}

/// One step of a command recipe: the words it adds to the command line.
#[derive(Clone, Copy, Debug)]
pub enum Step {
    /// Adds the word itself.
    Word(&'static str),
    /// Adds the string argument with this key, or the empty word when there is none.
    Value(&'static str),
    /// Adds the string argument with this key, when there is one.
    OptionalValue(&'static str),
    /// Adds the flag and then the string argument with the key, when there is one.
    FlagValue(&'static str, &'static str),
    /// Adds the flag when the boolean argument with the key is `true`.
    Switch(&'static str, &'static str),
    /// Adds the flag unless the boolean argument with the key is `true`.
    SwitchUnless(&'static str, &'static str),
    /// Adds the flag and then the decimal unsigned integer argument with the key, when there is one.
    Count(&'static str, &'static str),
    /// Adds the decimal unsigned integer argument with the key, or the default when there is none.
    CountOr(&'static str, u64),
    /// Adds the word when the string argument with the key is present.
    WordIfGiven(&'static str, &'static str),
    /// Adds the first word when the string argument with the key is present, else the second.
    WordByPresence(&'static str, &'static str, &'static str),
}

/// A tool of the server.
#[derive(Debug)]
pub struct ToolDef {
    /// The name a `tools/call` request gives.
    pub name: &'static str,
    /// A human-readable description.
    pub description: &'static str,
    /// The properties of its input schema, in order.
    pub params: Vec<Param>,
    /// How its arguments become the `ibmcloud` command line.
    pub recipe: Vec<Step>,
}

/// The mathematical content of a [`ToolDef`].
pub struct ToolSpec {
    pub name: &'static str,
    pub description: &'static str,
    pub params: Seq<Param>,
    pub recipe: Seq<Step>,
}

impl View for ToolDef {
    type V = ToolSpec;

    open spec fn view(&self) -> ToolSpec {
        ToolSpec {
            name: self.name,
            description: self.description,
            params: self.params@,
            recipe: self.recipe@,
        }
    }
}

/// The names of the properties the schema requires, in schema order.
pub open spec fn required_names(ps: Seq<Param>) -> Seq<&'static str>
    decreases ps.len(),
{
    if ps.len() == 0 {
        seq![]
    } else {
        required_names(ps.drop_last()) + (if ps.last().required {
            seq![ps.last().name]
        } else {
            seq![]
        })
    }
}

impl ToolDef {
    /// The `required` list of the tool's input schema: the names of the
    /// required properties in schema order, or `None` when no property is
    /// required and the schema has no `required` list.
    pub fn schema_required(&self) -> (r: Option<Vec<&'static str>>)
        ensures
            match r {
                Some(v) => v@ == required_names(self.params@) && v@.len() > 0,
                None => required_names(self.params@).len() == 0,
            },
    {
        let mut v: Vec<&'static str> = Vec::new();
        let mut j: usize = 0;
        while j < self.params.len()
            invariant
                j <= self.params@.len(),
                v@ == required_names(self.params@.take(j as int)),
            decreases self.params@.len() - j,
        {
            assert(self.params@.take(j + 1).drop_last() =~= self.params@.take(j as int));
            let p = self.params[j];
            if p.required {
                v.push(p.name);
            }
            j += 1;
            assert(v@ =~= required_names(self.params@.take(j as int)));
        }
        assert(self.params@.take(j as int) =~= self.params@);
        if v.len() == 0 {
            None
        } else {
            Some(v)
        }
    }
}

/// The argument a recipe step reads, with the JSON type it reads it as.
pub open spec fn step_reads(s: Step) -> Option<(&'static str, ArgKind)> {
    match s {
        Step::Word(_) => None,
        Step::Value(k) => Some((k, ArgKind::Text)),
        Step::OptionalValue(k) => Some((k, ArgKind::Text)),
        Step::FlagValue(_, k) => Some((k, ArgKind::Text)),
        Step::Switch(_, k) => Some((k, ArgKind::Boolean)),
        Step::SwitchUnless(_, k) => Some((k, ArgKind::Boolean)),
        Step::Count(_, k) => Some((k, ArgKind::Number)),
        Step::CountOr(k, _) => Some((k, ArgKind::Number)),
        Step::WordIfGiven(k, _) => Some((k, ArgKind::Text)),
        Step::WordByPresence(k, _, _) => Some((k, ArgKind::Text)),
    }
}

/// Whether the tool's schema has a property `key` of JSON type `kind`.
pub open spec fn declares(t: ToolSpec, key: &'static str, kind: ArgKind) -> bool {
    exists|j: int| 0 <= j < t.params.len() && (#[trigger] t.params[j]).name@ == key@ && t.params[j].kind == kind
}

/// Whether the tool's schema lists `key` as a required property.
pub open spec fn requires_param(t: ToolSpec, key: &'static str) -> bool {
    exists|j: int| 0 <= j < t.params.len() && (#[trigger] t.params[j]).name@ == key@ && t.params[j].required
}

/// Whether a step of the tool reads only what the schema declares, as the
/// schema types it, and gives a word for a missing argument (the empty word or
/// a default number) only for a required property.
pub open spec fn step_agrees(t: ToolSpec, s: Step) -> bool {
    &&& (step_reads(s) matches Some((key, kind)) ==> declares(t, key, kind))
    &&& (s matches Step::Value(key) ==> requires_param(t, key))
    &&& (s matches Step::CountOr(key, _) ==> requires_param(t, key))
}

/// Whether some step of the tool's recipe reads the property `p`.
pub open spec fn param_used(t: ToolSpec, p: Param) -> bool {
    exists|k: int| 0 <= k < t.recipe.len() && (step_reads(#[trigger] t.recipe[k]) matches Some((key, _)) && key@ == p.name@)
}

/// Whether a tool's input schema and its command recipe agree: every argument
/// the recipe reads is a property of the schema of the same JSON type, every
/// property is read, and an argument that always gets a word (the empty word or
/// a default number when it is missing) is required.
pub open spec fn schema_agrees(t: ToolSpec) -> bool {
    &&& forall|k: int| 0 <= k < t.recipe.len() ==> step_agrees(t, #[trigger] t.recipe[k])
    &&& forall|j: int| 0 <= j < t.params.len() ==> param_used(t, #[trigger] t.params[j])
}

/// Whether no two properties of the tool's schema share a name.
pub open spec fn param_names_distinct(t: ToolSpec) -> bool {
    forall|a: int, b: int|
        0 <= a < t.params.len() && 0 <= b < t.params.len() && a != b ==> (#[trigger] t.params[a]).name@
            != (#[trigger] t.params[b]).name@
}

/// Whether the step puts the argument for `p` itself on the command line when
/// it is given: a string argument as it is, a number argument in decimal.
pub open spec fn step_copies(s: Step, p: Param) -> bool {
    match s {
        Step::Value(k) => p.kind == ArgKind::Text && k@ == p.name@,
        Step::OptionalValue(k) => p.kind == ArgKind::Text && k@ == p.name@,
        Step::FlagValue(_, k) => p.kind == ArgKind::Text && k@ == p.name@,
        Step::Count(_, k) => p.kind == ArgKind::Number && k@ == p.name@,
        Step::CountOr(k, _) => p.kind == ArgKind::Number && k@ == p.name@,
        _ => false,
    }
}

/// Whether a string or number property `p` is copied onto the command line by some step.
pub open spec fn param_copied(t: ToolSpec, p: Param) -> bool {
    p.kind == ArgKind::Boolean || exists|k: int| 0 <= k < t.recipe.len() && step_copies(#[trigger] t.recipe[k], p)
}

/// Whether every string and number property of the tool is copied onto its command line.
pub open spec fn params_copied(t: ToolSpec) -> bool {
    forall|j: int| 0 <= j < t.params.len() ==> param_copied(t, #[trigger] t.params[j])
}

/// Whether the step puts a word for `p` on every command line, given or not:
/// its string value (the empty word when it is missing) or its number (a
/// default when it is missing).
pub open spec fn step_always_places(s: Step, p: Param) -> bool {
    match s {
        Step::Value(k) => k@ == p.name@,
        Step::CountOr(k, _) => k@ == p.name@,
        _ => false,
    }
}

/// Whether some step of the tool puts a word for `p` on every command line.
pub open spec fn always_placed(t: ToolSpec, p: Param) -> bool {
    exists|k: int| 0 <= k < t.recipe.len() && step_always_places(#[trigger] t.recipe[k], p)
}

/// Whether the step reads the argument `key`.
pub open spec fn reads_key(s: Step, key: Seq<char>) -> bool {
    step_reads(s) matches Some((k, _)) && k@ == key
}

/// Whether at most one step of the tool reads the argument `key`.
pub open spec fn read_once(t: ToolSpec, key: Seq<char>) -> bool {
    forall|a: int, b: int|
        0 <= a < t.recipe.len() && 0 <= b < t.recipe.len() && reads_key(#[trigger] t.recipe[a], key)
            && reads_key(#[trigger] t.recipe[b], key) ==> a == b
}

/// Whether the words a step writes itself are non-empty, and a boolean
/// switch adds its flag when the argument is `true`, but for `stream`, whose
/// flag (`--recent`) asks for the recent logs instead of a live stream.
pub open spec fn step_shape(s: Step) -> bool {
    match s {
        Step::Word(w) => w@.len() > 0,
        Step::Value(_) => true,
        Step::OptionalValue(_) => true,
        Step::FlagValue(f, _) => f@.len() > 0,
        Step::Switch(f, k) => f@.len() > 0 && k@ != "stream"@,
        Step::SwitchUnless(f, k) => f@.len() > 0 && k@ == "stream"@,
        Step::Count(f, _) => f@.len() > 0,
        Step::CountOr(_, _) => true,
        Step::WordIfGiven(_, w) => w@.len() > 0,
        Step::WordByPresence(_, a, b) => a@.len() > 0 && b@.len() > 0,
    }
}

/// Whether every step of the tool has the shape of [`step_shape`].
pub open spec fn steps_shaped(t: ToolSpec) -> bool {
    forall|k: int| 0 <= k < t.recipe.len() ==> step_shape(#[trigger] t.recipe[k])
}

/// Whether every required property of the tool always gets a word.
pub open spec fn required_placed(t: ToolSpec) -> bool {
    forall|j: int| 0 <= j < t.params.len() && (#[trigger] t.params[j]).required ==> always_placed(t, t.params[j])
}

/// Whether every boolean property of the tool is read by one step only.
pub open spec fn booleans_read_once(t: ToolSpec) -> bool {
    forall|j: int|
        0 <= j < t.params.len() && (#[trigger] t.params[j]).kind == ArgKind::Boolean ==> read_once(t, t.params[j].name@)
}

/// Whether the property `p` of the tool is read by two steps: the
/// `resource_id` of `ibmcloud_resource_tags` (which adds `--tag-type` and
/// `user`) and the `vpc_id` of `ibmcloud_ks_cluster_create` (which chooses
/// `vpc-gen2` over `classic` and is passed after `--vpc-id`).
pub open spec fn shared_param(t: ToolSpec, p: Param) -> bool {
    ||| t.name@ == "ibmcloud_resource_tags"@ && p.name@ == "resource_id"@
    ||| t.name@ == "ibmcloud_ks_cluster_create"@ && p.name@ == "vpc_id"@
}

/// Whether every property of the tool but a shared one is read by one step only.
pub open spec fn params_read_once(t: ToolSpec) -> bool {
    forall|j: int| 0 <= j < t.params.len() && !shared_param(t, #[trigger] t.params[j]) ==> read_once(t, t.params[j].name@)
}

/// Whether the tool's recipe has the shape the laws on command lines rest on:
/// every step has the shape of [`step_shape`], every required property always
/// gets a word, and every property but a shared one is read by one step only.
pub open spec fn recipe_shape(t: ToolSpec) -> bool {
    &&& steps_shaped(t)
    &&& required_placed(t)
    &&& booleans_read_once(t)
    &&& params_read_once(t)
}

/// The number of tools in the catalog.
pub const TOOL_COUNT: usize = 88;

/// Every tool of the catalog agrees with its schema (see [`schema_agrees`]),
/// its properties have distinct names, and every string or number property
/// is copied onto its command line, but for the `resource_id` of
/// `ibmcloud_resource_tags`, which only selects the `--tag-type user` words.
pub proof fn lemma_tool_schema(i: int)
    requires
        0 <= i < TOOL_COUNT,
    ensures
        schema_agrees(spec_tool(i)),
        param_names_distinct(spec_tool(i)),
        spec_tool(i).name@ != "ibmcloud_resource_tags"@ ==> params_copied(spec_tool(i)),
{
    if i == 0 {
        crate::entries::lemma_tool_0();
        crate::entries::lemma_copied_0();
        crate::entries::lemma_param_names_0();
    } else if i == 1 {
        crate::entries::lemma_tool_1();
    } else if i == 2 {
        crate::entries::lemma_tool_2();
        crate::entries::lemma_copied_2();
        crate::entries::lemma_param_names_2();
    } else if i == 3 {
        crate::entries::lemma_tool_3();
        crate::entries::lemma_copied_3();
    } else if i == 4 {
        crate::entries::lemma_tool_4();
    } else if i == 5 {
        crate::entries::lemma_tool_5();
    } else if i == 6 {
        crate::entries::lemma_tool_6();
    } else if i == 7 {
        crate::entries::lemma_tool_7();
    } else if i == 8 {
        crate::entries::lemma_tool_8();
    } else if i == 9 {
        crate::entries::lemma_tool_9();
        crate::entries::lemma_copied_9();
    } else if i == 10 {
        crate::entries::lemma_tool_10();
        crate::entries::lemma_copied_10();
        crate::entries::lemma_param_names_10();
    } else if i == 11 {
        crate::entries::lemma_tool_11();
        crate::entries::lemma_copied_11();
    } else if i == 12 {
        crate::entries::lemma_tool_12();
        crate::entries::lemma_copied_12();
        crate::entries::lemma_param_names_12();
    } else if i == 13 {
        crate::entries::lemma_tool_13();
        crate::entries::lemma_copied_13();
        crate::entries::lemma_param_names_13();
    } else if i == 14 {
        crate::entries::lemma_tool_14();
        crate::entries::lemma_copied_14();
        crate::entries::lemma_param_names_14();
    } else if i == 15 {
        crate::entries::lemma_tool_15();
        crate::entries::lemma_copied_15();
    } else if i == 16 {
        crate::entries::lemma_tool_16();
        crate::entries::lemma_copied_16();
    } else if i == 17 {
        crate::entries::lemma_tool_17();
        crate::entries::lemma_copied_17();
        crate::entries::lemma_param_names_17();
    } else if i == 18 {
        crate::entries::lemma_tool_18();
        crate::entries::lemma_copied_18();
        crate::entries::lemma_param_names_18();
    } else if i == 19 {
        crate::entries::lemma_tool_19();
        crate::entries::lemma_copied_19();
    } else if i == 20 {
        crate::entries::lemma_tool_20();
    } else if i == 21 {
        crate::entries::lemma_tool_21();
        crate::entries::lemma_copied_21();
        crate::entries::lemma_param_names_21();
    } else if i == 22 {
        crate::entries::lemma_tool_22();
    } else if i == 23 {
        crate::entries::lemma_tool_23();
        crate::entries::lemma_copied_23();
    } else if i == 24 {
        crate::entries::lemma_tool_24();
    } else if i == 25 {
        crate::entries::lemma_tool_25();
        crate::entries::lemma_copied_25();
    } else if i == 26 {
        crate::entries::lemma_tool_26();
        crate::entries::lemma_copied_26();
        crate::entries::lemma_param_names_26();
    } else if i == 27 {
        crate::entries::lemma_tool_27();
        crate::entries::lemma_copied_27();
    } else if i == 28 {
        crate::entries::lemma_tool_28();
        crate::entries::lemma_copied_28();
    } else if i == 29 {
        crate::entries::lemma_tool_29();
        crate::entries::lemma_copied_29();
    } else if i == 30 {
        crate::entries::lemma_tool_30();
        crate::entries::lemma_copied_30();
        crate::entries::lemma_param_names_30();
    } else if i == 31 {
        crate::entries::lemma_tool_31();
        crate::entries::lemma_copied_31();
        crate::entries::lemma_param_names_31();
    } else if i == 32 {
        crate::entries::lemma_tool_32();
        crate::entries::lemma_copied_32();
    } else if i == 33 {
        crate::entries::lemma_tool_33();
        crate::entries::lemma_copied_33();
        crate::entries::lemma_param_names_33();
    } else if i == 34 {
        crate::entries::lemma_tool_34();
        crate::entries::lemma_copied_34();
        crate::entries::lemma_param_names_34();
    } else if i == 35 {
        crate::entries::lemma_tool_35();
    } else if i == 36 {
        crate::entries::lemma_tool_36();
    } else if i == 37 {
        crate::entries::lemma_tool_37();
        crate::entries::lemma_copied_37();
    } else if i == 38 {
        crate::entries::lemma_tool_38();
        crate::entries::lemma_copied_38();
        crate::entries::lemma_param_names_38();
    } else if i == 39 {
        crate::entries::lemma_tool_39();
        crate::entries::lemma_copied_39();
        crate::entries::lemma_param_names_39();
    } else if i == 40 {
        crate::entries::lemma_tool_40();
        crate::entries::lemma_copied_40();
        crate::entries::lemma_param_names_40();
    } else if i == 41 {
        crate::entries::lemma_tool_41();
        crate::entries::lemma_copied_41();
    } else if i == 42 {
        crate::entries::lemma_tool_42();
        crate::entries::lemma_copied_42();
    } else if i == 43 {
        crate::entries::lemma_tool_43();
        crate::entries::lemma_copied_43();
        crate::entries::lemma_param_names_43();
    } else if i == 44 {
        crate::entries::lemma_tool_44();
        crate::entries::lemma_copied_44();
        crate::entries::lemma_param_names_44();
    } else if i == 45 {
        crate::entries::lemma_tool_45();
        crate::entries::lemma_copied_45();
        crate::entries::lemma_param_names_45();
    } else if i == 46 {
        crate::entries::lemma_tool_46();
        crate::entries::lemma_copied_46();
    } else if i == 47 {
        crate::entries::lemma_tool_47();
        crate::entries::lemma_copied_47();
    } else if i == 48 {
        crate::entries::lemma_tool_48();
        crate::entries::lemma_copied_48();
        crate::entries::lemma_param_names_48();
    } else if i == 49 {
        crate::entries::lemma_tool_49();
        crate::entries::lemma_copied_49();
        crate::entries::lemma_param_names_49();
    } else if i == 50 {
        crate::entries::lemma_tool_50();
        crate::entries::lemma_copied_50();
        crate::entries::lemma_param_names_50();
    } else if i == 51 {
        crate::entries::lemma_tool_51();
    } else if i == 52 {
        crate::entries::lemma_tool_52();
        crate::entries::lemma_copied_52();
        crate::entries::lemma_param_names_52();
    } else if i == 53 {
        crate::entries::lemma_tool_53();
    } else if i == 54 {
        crate::entries::lemma_tool_54();
        crate::entries::lemma_copied_54();
        crate::entries::lemma_param_names_54();
    } else if i == 55 {
        crate::entries::lemma_tool_55();
        crate::entries::lemma_copied_55();
        crate::entries::lemma_param_names_55();
    } else if i == 56 {
        crate::entries::lemma_tool_56();
        crate::entries::lemma_copied_56();
        crate::entries::lemma_param_names_56();
    } else if i == 57 {
        crate::entries::lemma_tool_57();
    } else if i == 58 {
        crate::entries::lemma_tool_58();
    } else if i == 59 {
        crate::entries::lemma_tool_59();
        crate::entries::lemma_copied_59();
        crate::entries::lemma_param_names_59();
    } else if i == 60 {
        crate::entries::lemma_tool_60();
    } else if i == 61 {
        crate::entries::lemma_tool_61();
        crate::entries::lemma_copied_61();
        crate::entries::lemma_param_names_61();
    } else if i == 62 {
        crate::entries::lemma_tool_62();
        crate::entries::lemma_copied_62();
        crate::entries::lemma_param_names_62();
    } else if i == 63 {
        crate::entries::lemma_tool_63();
    } else if i == 64 {
        crate::entries::lemma_tool_64();
        crate::entries::lemma_copied_64();
    } else if i == 65 {
        crate::entries::lemma_tool_65();
        crate::entries::lemma_copied_65();
        crate::entries::lemma_param_names_65();
    } else if i == 66 {
        crate::entries::lemma_tool_66();
        crate::entries::lemma_copied_66();
        crate::entries::lemma_param_names_66();
    } else if i == 67 {
        crate::entries::lemma_tool_67();
        crate::entries::lemma_copied_67();
    } else if i == 68 {
        crate::entries::lemma_tool_68();
        crate::entries::lemma_copied_68();
        crate::entries::lemma_param_names_68();
    } else if i == 69 {
        crate::entries::lemma_tool_69();
    } else if i == 70 {
        crate::entries::lemma_tool_70();
        crate::entries::lemma_copied_70();
    } else if i == 71 {
        crate::entries::lemma_tool_71();
        crate::entries::lemma_copied_71();
        crate::entries::lemma_param_names_71();
    } else if i == 72 {
        crate::entries::lemma_tool_72();
        crate::entries::lemma_copied_72();
    } else if i == 73 {
        crate::entries::lemma_tool_73();
        crate::entries::lemma_copied_73();
        crate::entries::lemma_param_names_73();
    } else if i == 74 {
        crate::entries::lemma_tool_74();
        crate::entries::lemma_copied_74();
    } else if i == 75 {
        crate::entries::lemma_tool_75();
        crate::entries::lemma_copied_75();
        crate::entries::lemma_param_names_75();
    } else if i == 76 {
        crate::entries::lemma_tool_76();
        crate::entries::lemma_copied_76();
    } else if i == 77 {
        crate::entries::lemma_tool_77();
        crate::entries::lemma_copied_77();
    } else if i == 78 {
        crate::entries::lemma_tool_78();
        crate::entries::lemma_copied_78();
    } else if i == 79 {
        crate::entries::lemma_tool_79();
        crate::entries::lemma_copied_79();
    } else if i == 80 {
        crate::entries::lemma_tool_80();
        crate::entries::lemma_copied_80();
    } else if i == 81 {
        crate::entries::lemma_tool_81();
        crate::entries::lemma_copied_81();
        crate::entries::lemma_param_names_81();
    } else if i == 82 {
        crate::entries::lemma_tool_82();
        crate::entries::lemma_copied_82();
        crate::entries::lemma_param_names_82();
    } else if i == 83 {
        crate::entries::lemma_tool_83();
        crate::entries::lemma_copied_83();
        crate::entries::lemma_param_names_83();
    } else if i == 84 {
        crate::entries::lemma_tool_84();
    } else if i == 85 {
        crate::entries::lemma_tool_85();
    } else if i == 86 {
        crate::entries::lemma_tool_86();
        crate::entries::lemma_copied_86();
        crate::entries::lemma_param_names_86();
    } else {
        crate::entries::lemma_tool_87();
    }
}

/// Every tool of the catalog has the recipe shape of [`recipe_shape`].
pub proof fn lemma_tool_shape(i: int)
    requires
        0 <= i < TOOL_COUNT,
    ensures
        recipe_shape(spec_tool(i)),
{
    if i == 0 {
        crate::entries::lemma_steps_0();
        crate::entries::lemma_placed_0();
    } else if i == 1 {
        crate::entries::lemma_steps_1();
        crate::entries::lemma_placed_1();
    } else if i == 2 {
        crate::entries::lemma_steps_2();
        crate::entries::lemma_placed_2();
    } else if i == 3 {
        crate::entries::lemma_steps_3();
        crate::entries::lemma_placed_3();
    } else if i == 4 {
        crate::entries::lemma_steps_4();
        crate::entries::lemma_placed_4();
    } else if i == 5 {
        crate::entries::lemma_steps_5();
        crate::entries::lemma_placed_5();
    } else if i == 6 {
        crate::entries::lemma_steps_6();
        crate::entries::lemma_placed_6();
    } else if i == 7 {
        crate::entries::lemma_steps_7();
        crate::entries::lemma_placed_7();
    } else if i == 8 {
        crate::entries::lemma_steps_8();
        crate::entries::lemma_placed_8();
    } else if i == 9 {
        crate::entries::lemma_steps_9();
        crate::entries::lemma_placed_9();
    } else if i == 10 {
        crate::entries::lemma_steps_10();
        crate::entries::lemma_placed_10();
    } else if i == 11 {
        crate::entries::lemma_steps_11();
        crate::entries::lemma_placed_11();
    } else if i == 12 {
        crate::entries::lemma_steps_12();
        crate::entries::lemma_placed_12();
    } else if i == 13 {
        crate::entries::lemma_steps_13();
        crate::entries::lemma_placed_13();
    } else if i == 14 {
        crate::entries::lemma_steps_14();
        crate::entries::lemma_placed_14();
    } else if i == 15 {
        crate::entries::lemma_steps_15();
        crate::entries::lemma_placed_15();
    } else if i == 16 {
        crate::entries::lemma_steps_16();
        crate::entries::lemma_placed_16();
    } else if i == 17 {
        crate::entries::lemma_steps_17();
        crate::entries::lemma_placed_17();
    } else if i == 18 {
        crate::entries::lemma_steps_18();
        crate::entries::lemma_placed_18();
    } else if i == 19 {
        crate::entries::lemma_steps_19();
        crate::entries::lemma_placed_19();
    } else if i == 20 {
        crate::entries::lemma_steps_20();
        crate::entries::lemma_placed_20();
    } else if i == 21 {
        crate::entries::lemma_steps_21();
        crate::entries::lemma_placed_21();
    } else if i == 22 {
        crate::entries::lemma_steps_22();
        crate::entries::lemma_placed_22();
    } else if i == 23 {
        crate::entries::lemma_steps_23();
        crate::entries::lemma_placed_23();
    } else if i == 24 {
        crate::entries::lemma_steps_24();
        crate::entries::lemma_placed_24();
    } else if i == 25 {
        crate::entries::lemma_steps_25();
        crate::entries::lemma_placed_25();
    } else if i == 26 {
        crate::entries::lemma_steps_26();
        crate::entries::lemma_placed_26();
    } else if i == 27 {
        crate::entries::lemma_steps_27();
        crate::entries::lemma_placed_27();
    } else if i == 28 {
        crate::entries::lemma_steps_28();
        crate::entries::lemma_placed_28();
    } else if i == 29 {
        crate::entries::lemma_steps_29();
        crate::entries::lemma_placed_29();
    } else if i == 30 {
        crate::entries::lemma_steps_30();
        crate::entries::lemma_placed_30();
    } else if i == 31 {
        crate::entries::lemma_steps_31();
        crate::entries::lemma_placed_31();
    } else if i == 32 {
        crate::entries::lemma_steps_32();
        crate::entries::lemma_placed_32();
    } else if i == 33 {
        crate::entries::lemma_steps_33();
        crate::entries::lemma_placed_33();
    } else if i == 34 {
        crate::entries::lemma_steps_34();
        crate::entries::lemma_placed_34();
    } else if i == 35 {
        crate::entries::lemma_steps_35();
        crate::entries::lemma_placed_35();
    } else if i == 36 {
        crate::entries::lemma_steps_36();
        crate::entries::lemma_placed_36();
    } else if i == 37 {
        crate::entries::lemma_steps_37();
        crate::entries::lemma_placed_37();
    } else if i == 38 {
        crate::entries::lemma_steps_38();
        crate::entries::lemma_placed_38();
    } else if i == 39 {
        crate::entries::lemma_steps_39();
        crate::entries::lemma_placed_39();
    } else if i == 40 {
        crate::entries::lemma_steps_40();
        crate::entries::lemma_placed_40();
    } else if i == 41 {
        crate::entries::lemma_steps_41();
        crate::entries::lemma_placed_41();
    } else if i == 42 {
        crate::entries::lemma_steps_42();
        crate::entries::lemma_placed_42();
    } else if i == 43 {
        crate::entries::lemma_steps_43();
        crate::entries::lemma_placed_43();
    } else if i == 44 {
        crate::entries::lemma_steps_44();
        crate::entries::lemma_placed_44();
    } else if i == 45 {
        crate::entries::lemma_steps_45();
        crate::entries::lemma_placed_45();
    } else if i == 46 {
        crate::entries::lemma_steps_46();
        crate::entries::lemma_placed_46();
    } else if i == 47 {
        crate::entries::lemma_steps_47();
        crate::entries::lemma_placed_47();
    } else if i == 48 {
        crate::entries::lemma_steps_48();
        crate::entries::lemma_placed_48();
    } else if i == 49 {
        crate::entries::lemma_steps_49();
        crate::entries::lemma_placed_49();
    } else if i == 50 {
        crate::entries::lemma_steps_50();
        crate::entries::lemma_placed_50();
    } else if i == 51 {
        crate::entries::lemma_steps_51();
        crate::entries::lemma_placed_51();
    } else if i == 52 {
        crate::entries::lemma_steps_52();
        crate::entries::lemma_placed_52();
    } else if i == 53 {
        crate::entries::lemma_steps_53();
        crate::entries::lemma_placed_53();
    } else if i == 54 {
        crate::entries::lemma_steps_54();
        crate::entries::lemma_placed_54();
    } else if i == 55 {
        crate::entries::lemma_steps_55();
        crate::entries::lemma_placed_55();
    } else if i == 56 {
        crate::entries::lemma_steps_56();
        crate::entries::lemma_placed_56();
    } else if i == 57 {
        crate::entries::lemma_steps_57();
        crate::entries::lemma_placed_57();
    } else if i == 58 {
        crate::entries::lemma_steps_58();
        crate::entries::lemma_placed_58();
    } else if i == 59 {
        crate::entries::lemma_steps_59();
        crate::entries::lemma_placed_59();
    } else if i == 60 {
        crate::entries::lemma_steps_60();
        crate::entries::lemma_placed_60();
    } else if i == 61 {
        crate::entries::lemma_steps_61();
        crate::entries::lemma_placed_61();
    } else if i == 62 {
        crate::entries::lemma_steps_62();
        crate::entries::lemma_placed_62();
    } else if i == 63 {
        crate::entries::lemma_steps_63();
        crate::entries::lemma_placed_63();
    } else if i == 64 {
        crate::entries::lemma_steps_64();
        crate::entries::lemma_placed_64();
    } else if i == 65 {
        crate::entries::lemma_steps_65();
        crate::entries::lemma_placed_65();
    } else if i == 66 {
        crate::entries::lemma_steps_66();
        crate::entries::lemma_placed_66();
    } else if i == 67 {
        crate::entries::lemma_steps_67();
        crate::entries::lemma_placed_67();
    } else if i == 68 {
        crate::entries::lemma_steps_68();
        crate::entries::lemma_placed_68();
    } else if i == 69 {
        crate::entries::lemma_steps_69();
        crate::entries::lemma_placed_69();
    } else if i == 70 {
        crate::entries::lemma_steps_70();
        crate::entries::lemma_placed_70();
    } else if i == 71 {
        crate::entries::lemma_steps_71();
        crate::entries::lemma_placed_71();
    } else if i == 72 {
        crate::entries::lemma_steps_72();
        crate::entries::lemma_placed_72();
    } else if i == 73 {
        crate::entries::lemma_steps_73();
        crate::entries::lemma_placed_73();
    } else if i == 74 {
        crate::entries::lemma_steps_74();
        crate::entries::lemma_placed_74();
    } else if i == 75 {
        crate::entries::lemma_steps_75();
        crate::entries::lemma_placed_75();
    } else if i == 76 {
        crate::entries::lemma_steps_76();
        crate::entries::lemma_placed_76();
    } else if i == 77 {
        crate::entries::lemma_steps_77();
        crate::entries::lemma_placed_77();
    } else if i == 78 {
        crate::entries::lemma_steps_78();
        crate::entries::lemma_placed_78();
    } else if i == 79 {
        crate::entries::lemma_steps_79();
        crate::entries::lemma_placed_79();
    } else if i == 80 {
        crate::entries::lemma_steps_80();
        crate::entries::lemma_placed_80();
    } else if i == 81 {
        crate::entries::lemma_steps_81();
        crate::entries::lemma_placed_81();
    } else if i == 82 {
        crate::entries::lemma_steps_82();
        crate::entries::lemma_placed_82();
    } else if i == 83 {
        crate::entries::lemma_steps_83();
        crate::entries::lemma_placed_83();
    } else if i == 84 {
        crate::entries::lemma_steps_84();
        crate::entries::lemma_placed_84();
    } else if i == 85 {
        crate::entries::lemma_steps_85();
        crate::entries::lemma_placed_85();
    } else if i == 86 {
        crate::entries::lemma_steps_86();
        crate::entries::lemma_placed_86();
    } else {
        crate::entries::lemma_steps_87();
        crate::entries::lemma_placed_87();
    }
}

/// A property of a tool's input schema is required exactly when the tool's
/// recipe gives it a word on every command line: its string value (the empty
/// word when the call leaves it out) or its number (a default when the call
/// leaves it out). A property whose step adds nothing when it is missing, such
/// as each of the four of `ibmcloud_target`, is optional, so the schema of such
/// a tool has no `required` list.
pub proof fn lemma_required_iff_always_placed(i: int, j: int)
    requires
        0 <= i < TOOL_COUNT,
        0 <= j < spec_tool(i).params.len(),
    ensures
        spec_tool(i).params[j].required <==> always_placed(spec_tool(i), spec_tool(i).params[j]),
        spec_tool(i).params[j].required <==> required_names(spec_tool(i).params).contains(
            spec_tool(i).params[j].name,
        ),
{
    lemma_tool_schema(i);
    lemma_tool_shape(i);
    let t = spec_tool(i);
    let p = t.params[j];
    if always_placed(t, p) {
        let k = choose|k: int| 0 <= k < t.recipe.len() && step_always_places(#[trigger] t.recipe[k], p);
        assert(step_agrees(t, t.recipe[k]));
        let key = match t.recipe[k] {
            Step::Value(key) => key,
            Step::CountOr(key, _) => key,
            _ => p.name,
        };
        assert(requires_param(t, key));
        let j2 = choose|j2: int| 0 <= j2 < t.params.len() && (#[trigger] t.params[j2]).name@ == key@ && t.params[j2].required;
        if j2 != j {
            assert(t.params[j2].name@ != t.params[j].name@);
        }
    }
    lemma_required_names(t.params, j);
}

proof fn lemma_required_names(ps: Seq<Param>, j: int)
    requires
        0 <= j < ps.len(),
        forall|a: int, b: int|
            0 <= a < ps.len() && 0 <= b < ps.len() && a != b ==> (#[trigger] ps[a]).name@ != (#[trigger] ps[b]).name@,
    ensures
        ps[j].required <==> required_names(ps).contains(ps[j].name),
    decreases ps.len(),
{
    let rest = ps.drop_last();
    let tail = if ps.last().required {
        seq![ps.last().name]
    } else {
        seq![]
    };
    assert(required_names(ps) == required_names(rest) + tail);
    if j == ps.len() - 1 {
        if ps[j].required {
            assert((required_names(rest) + tail)[required_names(rest).len() as int] == ps[j].name);
        } else {
            assert(tail.len() == 0);
            assert(required_names(rest) + tail =~= required_names(rest));
            lemma_required_names_from(rest, ps[j].name);
            if required_names(rest).contains(ps[j].name) {
                let a = choose|a: int| 0 <= a < rest.len() && rest[a].name == ps[j].name;
                assert(ps[a] == rest[a]);
                assert(ps[a].name@ != ps[j].name@);
            }
        }
    } else {
        assert(rest[j] == ps[j]);
        assert forall|a: int, b: int|
            0 <= a < rest.len() && 0 <= b < rest.len() && a != b implies (#[trigger] rest[a]).name@
                != (#[trigger] rest[b]).name@ by {
            assert(rest[a] == ps[a] && rest[b] == ps[b]);
        }
        lemma_required_names(rest, j);
        if ps.last().required {
            assert(ps.last() == ps[ps.len() - 1]);
            assert(ps.last().name@ != ps[j].name@);
            if required_names(ps).contains(ps[j].name) {
                let x = choose|x: int| 0 <= x < required_names(ps).len() && required_names(ps)[x] == ps[j].name;
                if x < required_names(rest).len() {
                    assert(required_names(rest)[x] == ps[j].name);
                }
            }
            if required_names(rest).contains(ps[j].name) {
                let x = choose|x: int| 0 <= x < required_names(rest).len() && required_names(rest)[x] == ps[j].name;
                assert(required_names(ps)[x] == ps[j].name);
            }
        } else {
            assert(required_names(rest) + tail =~= required_names(rest));
        }
    }
}

proof fn lemma_required_names_from(ps: Seq<Param>, name: &'static str)
    ensures
        required_names(ps).contains(name) ==> exists|a: int| 0 <= a < ps.len() && (#[trigger] ps[a]).name == name,
    decreases ps.len(),
{
    if ps.len() > 0 {
        let rest = ps.drop_last();
        lemma_required_names_from(rest, name);
        if required_names(ps).contains(name) {
            let x = choose|x: int| 0 <= x < required_names(ps).len() && required_names(ps)[x] == name;
            if x < required_names(rest).len() {
                assert(required_names(rest)[x] == name);
                let a = choose|a: int| 0 <= a < rest.len() && (#[trigger] rest[a]).name == name;
                assert(ps[a] == rest[a]);
            } else {
                assert(ps[ps.len() - 1] == ps.last());
            }
        }
    }
}

/// Every property of a tool that one step alone reads is copied onto its
/// command line, if it is a string or number property.
pub proof fn lemma_unshared_copied(i: int, j: int)
    requires
        0 <= i < TOOL_COUNT,
        0 <= j < spec_tool(i).params.len(),
        !shared_param(spec_tool(i), spec_tool(i).params[j]),
    ensures
        param_copied(spec_tool(i), spec_tool(i).params[j]),
{
    let t = spec_tool(i);
    lemma_tool_schema(i);
    if t.name@ == "ibmcloud_resource_tags"@ {
        lemma_listed_tool_found(i);
        lemma_listed_tool_found(20);
        assert(spec_tool(20).name@ == "ibmcloud_resource_tags"@);
        assert(i == 20);
        assert(t.params.len() == 1);
        assert(shared_param(t, t.params[j]));
    }
}

/// The two properties that two steps read are string properties.
pub proof fn lemma_shared_params_are_strings(i: int, j: int)
    requires
        0 <= i < TOOL_COUNT,
        0 <= j < spec_tool(i).params.len(),
        shared_param(spec_tool(i), spec_tool(i).params[j]),
    ensures
        spec_tool(i).params[j].kind == ArgKind::Text,
{
    let t = spec_tool(i);
    lemma_tool_schema(i);
    lemma_listed_tool_found(i);
    if t.name@ == "ibmcloud_resource_tags"@ {
        lemma_listed_tool_found(20);
        assert(spec_tool(20).name@ == "ibmcloud_resource_tags"@);
        assert(i == 20);
    } else {
        lemma_listed_tool_found(44);
        assert(spec_tool(44).name@ == "ibmcloud_ks_cluster_create"@);
        assert(i == 44);
        assert(step_agrees(t, t.recipe[11]));
        assert(step_reads(t.recipe[11]) == Some(("vpc_id", ArgKind::Text)));
        let j2 = choose|j2: int| 0 <= j2 < t.params.len() && (#[trigger] t.params[j2]).name@ == "vpc_id"@ && t.params[j2].kind == ArgKind::Text;
        if j2 != j {
            assert(t.params[j2].name@ != t.params[j].name@);
        }
    }
}

/// The whole catalog, in the order `tools/list` gives it.
pub open spec fn spec_catalog() -> Seq<ToolSpec> {
    Seq::new(TOOL_COUNT as nat, |i: int| spec_tool(i))
}

/// The first position at or after `from` whose tool is named `name`.
pub open spec fn find_from(name: Seq<char>, from: int) -> Option<int>
    decreases TOOL_COUNT - from,
{
    if from < 0 || from >= TOOL_COUNT {
        None
    } else if spec_tool(from).name@ == name {
        Some(from)
    } else {
        find_from(name, from + 1)
    }
}

/// A position that `find_from` gives names a tool of that name, at or after `from`,
/// and every earlier position from `from` on has another name.
pub proof fn lemma_find_from(name: Seq<char>, from: int)
    requires
        0 <= from,
    ensures
        find_from(name, from) matches Some(i) ==> from <= i < TOOL_COUNT && spec_tool(i).name@ == name
            && forall|j: int| from <= j < i ==> spec_tool(j).name@ != name,
        find_from(name, from) is None ==> forall|j: int| from <= j < TOOL_COUNT ==> spec_tool(j).name@ != name,
    decreases TOOL_COUNT - from,
{
    if from < TOOL_COUNT {
        lemma_find_from(name, from + 1);
    }
}

/// The position of the first tool named `name`, if there is one.
pub open spec fn tool_index(name: Seq<char>) -> Option<int> {
    find_from(name, 0)
}

proof fn lemma_find_from_reaches(name: Seq<char>, from: int, i: int)
    requires
        0 <= from <= i < TOOL_COUNT,
        spec_tool(i).name@ == name,
    ensures
        find_from(name, from) is Some,
    decreases i - from,
{
    if from < i && spec_tool(from).name@ != name {
        lemma_find_from_reaches(name, from + 1, i);
    }
}

/// The tools that `tools/call` accepts are exactly those that `tools/list`
/// lists: a name has a catalog position if and only if some listed tool has
/// that name, and the position found holds a tool of that name.
pub proof fn lemma_callable_iff_listed(name: Seq<char>)
    ensures
        tool_index(name) is Some <==> exists|i: int| 0 <= i < TOOL_COUNT && (#[trigger] spec_tool(i)).name@ == name,
        tool_index(name) matches Some(i) ==> 0 <= i < TOOL_COUNT && spec_tool(i).name@ == name,
{
    lemma_find_from(name, 0);
    if exists|i: int| 0 <= i < TOOL_COUNT && (#[trigger] spec_tool(i)).name@ == name {
        let i: int = choose|i: int| 0 <= i < TOOL_COUNT && (#[trigger] spec_tool(i)).name@ == name;
        lemma_find_from_reaches(name, 0, i);
    }
}

proof fn lemma_sorted(r: int, s: int)
    requires
        0 <= r < s < TOOL_COUNT,
    ensures
        lex_lt(spec_tool(sorted_position(r)).name@, spec_tool(sorted_position(s)).name@),
    decreases s - r,
{
    lemma_sorted_step(s - 1);
    if r < s - 1 {
        lemma_sorted(r, s - 1);
        lemma_lex_lt_order(
            spec_tool(sorted_position(r)).name@,
            spec_tool(sorted_position(s - 1)).name@,
            spec_tool(sorted_position(s)).name@,
        );
    }
}

/// No two tools of the catalog share a name.
pub proof fn lemma_names_distinct(i: int, j: int)
    requires
        0 <= i < TOOL_COUNT,
        0 <= j < TOOL_COUNT,
        i != j,
    ensures
        spec_tool(i).name@ != spec_tool(j).name@,
{
    lemma_rank(i);
    lemma_rank(j);
    let a = spec_tool(i).name@;
    let b = spec_tool(j).name@;
    if name_rank(i) < name_rank(j) {
        lemma_sorted(name_rank(i), name_rank(j));
        lemma_lex_lt_order(a, b, b);
    } else {
        lemma_sorted(name_rank(j), name_rank(i));
        lemma_lex_lt_order(b, a, a);
    }
}

/// Calling a listed tool by its name finds that very tool: its position is
/// the one `tool_index` gives for its name.
pub proof fn lemma_listed_tool_found(i: int)
    requires
        0 <= i < TOOL_COUNT,
    ensures
        tool_index(spec_tool(i).name@) == Some(i),
{
    let name = spec_tool(i).name@;
    lemma_callable_iff_listed(name);
    lemma_find_from(name, 0);
    let k = tool_index(name).unwrap();
    if k < i {
        lemma_names_distinct(k, i);
    } else if k > i {
        lemma_names_distinct(i, k);
    }
}

/// Every tool of the catalog, in order, as `tools/list` lists them.
pub fn tool_definitions() -> (r: Vec<ToolDef>)
    ensures
        r@.map_values(|t: ToolDef| t@) == spec_catalog(),
{
    let mut r: Vec<ToolDef> = Vec::new();
    let mut i: usize = 0;
    while i < TOOL_COUNT
        invariant
            i <= TOOL_COUNT,
            r@.len() == i,
            forall|k: int| 0 <= k < i ==> (#[trigger] r@[k])@ == spec_tool(k),
        decreases TOOL_COUNT - i,
    {
        r.push(tool_at(i));
        i += 1;
    }
    assert(r@.map_values(|t: ToolDef| t@) =~= spec_catalog());
    r
}

/// The position of the first tool named `name`, if any.
pub fn find_tool(name: &str) -> (r: Option<usize>)
    ensures
        match r {
            Some(i) => i < TOOL_COUNT && tool_index(name@) == Some(i as int),
            None => tool_index(name@) is None,
        },
{
    proof {
        lemma_find_from(name@, 0);
    }
    let mut i: usize = 0;
    while i < TOOL_COUNT
        invariant
            i <= TOOL_COUNT,
            tool_index(name@) == find_from(name@, i as int),
        decreases TOOL_COUNT - i,
    {
        let t = tool_at(i);
        if str_eq(t.name, name) {
            return Some(i);
        }
        i += 1;
    }
    None
}

} // verus!
