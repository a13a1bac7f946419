//! Schema validation of outbound tool calls.
//!
//! A registry holds the known tool schemas.  Before a tool call is
//! dispatched, its name is looked up (case-insensitively) and its
//! arguments are checked against the schema: a required field must be
//! present and of the declared type; a field of type `Any` may be absent
//! or null; fields beyond the schema are ignored.  Schema fields are
//! checked in key order, and the first failure is reported.

use vstd::prelude::*;

use crate::json::{field_of, get_field, obj_fields, Json, JsonValue, NumModel};
use crate::strmap::{
    has_key, key_index, lemma_key_index, lookup, sort_strings, sorted_keys, sorted_strs, StrMap,
};
use crate::text::{
    is_ascii_seq, join, lower_seq, lowercase, upper_seq, owned, push_joined, push_str, sviews, to_lowercase,
};

verus! {

/// Supported parameter types for tool argument validation.
#[derive(Debug, Clone, Copy, PartialEq, Eq, Structural)]
pub enum ParamType {
    String,
    Integer,
    Float,
    Boolean,
    Array,
    Object,
    /// Any JSON value (no type checking); the field may be absent.
    Any,
}

impl ParamType {
    /// Whether a JSON value is of this type.
    pub open spec fn accepts(self, v: Json) -> bool {
        match self {
            ParamType::String => v is Str,
            ParamType::Integer => v is Num && v->Num_0 is Int,
            ParamType::Float => v is Num,
            ParamType::Boolean => v is Bool,
            ParamType::Array => v is Arr,
            ParamType::Object => v is Obj,
            ParamType::Any => true,
        }
    }

    /// Check if a given JSON value matches this type.
    fn matches(&self, value: &JsonValue) -> (b: bool)
        ensures
            b == self.accepts(value.model()),
    {
        match self {
            ParamType::String => matches!(value, JsonValue::String(_)),
            ParamType::Integer => match value {
                JsonValue::Number(n) => !n.is_float(),
                _ => false,
            },
            ParamType::Float => matches!(value, JsonValue::Number(_)),
            ParamType::Boolean => matches!(value, JsonValue::Bool(_)),
            ParamType::Array => matches!(value, JsonValue::Array(_)),
            ParamType::Object => matches!(value, JsonValue::Object(_)),
            ParamType::Any => true,
        }
    }

    /// The variant's name, as `{:?}` prints it.
    pub open spec fn label(self) -> Seq<char> {
        match self {
            ParamType::String => "String"@,
            ParamType::Integer => "Integer"@,
            ParamType::Float => "Float"@,
            ParamType::Boolean => "Boolean"@,
            ParamType::Array => "Array"@,
            ParamType::Object => "Object"@,
            ParamType::Any => "Any"@,
        }
    }

    /// The variant's name, as `{:?}` prints it.
    pub fn name(&self) -> (s: &'static str)
        ensures
            s@ == self.label(),
    {
        match self {
            ParamType::String => "String",
            ParamType::Integer => "Integer",
            ParamType::Float => "Float",
            ParamType::Boolean => "Boolean",
            ParamType::Array => "Array",
            ParamType::Object => "Object",
            ParamType::Any => "Any",
        }
    }
}

/// Definition of a single tool's expected input schema.
#[derive(Debug)]
pub struct ToolSchema {
    /// Canonical tool name (matched case-insensitively).
    pub name: String,
    /// Human-readable description of what this tool does.
    pub description: String,
    /// Expected parameter fields and their types.
    pub params: StrMap<ParamType>,
}

/// A tool call that passed validation.
#[derive(Debug)]
pub struct ValidatedToolCall {
    /// Canonical tool name (as registered).
    pub name: String,
    /// The arguments that the schema names and that were accepted.
    pub params: StrMap<JsonValue>,
}

/// Validation error for an outbound tool call.
#[derive(Debug, Clone, PartialEq, Eq)]
pub enum ToolValidationError {
    /// Tool name not found in registry.
    UnknownTool { name: String, known_tools: Vec<String> },
    /// Required field is missing from args.
    MissingField { tool: String, field: String, param_type: ParamType },
    /// Field value does not match expected type.
    TypeMismatch { tool: String, field: String, expected: ParamType, actual: String },
}

impl ToolValidationError {
    /// The message that describes the error.
    pub open spec fn text(&self) -> Seq<char> {
        match self {
            ToolValidationError::UnknownTool { name, known_tools } => "Unknown tool '"@ + name@
                + "'. Known tools: ["@ + join(sviews(known_tools@), ", "@) + "]"@,
            ToolValidationError::MissingField { tool, field, param_type } => "Tool '"@ + tool@
                + "' missing required field '"@ + field@ + "' (expected: "@ + param_type.label()
                + ")"@,
            ToolValidationError::TypeMismatch { tool, field, expected, actual } => "Tool '"@
                + tool@ + "' field '"@ + field@ + "' type mismatch: expected "@ + expected.label()
                + ", got "@ + actual@,
        }
    }

    /// The message that describes the error.
    pub fn to_string(&self) -> (s: String)
        ensures
            s@ == self.text(),
    {
        let mut s = String::new();
        match self {
            ToolValidationError::UnknownTool { name, known_tools } => {
                push_str(&mut s, "Unknown tool '");
                push_str(&mut s, name.as_str());
                push_str(&mut s, "'. Known tools: [");
                push_joined(&mut s, known_tools, ", ");
                push_str(&mut s, "]");
            },
            ToolValidationError::MissingField { tool, field, param_type } => {
                push_str(&mut s, "Tool '");
                push_str(&mut s, tool.as_str());
                push_str(&mut s, "' missing required field '");
                push_str(&mut s, field.as_str());
                push_str(&mut s, "' (expected: ");
                push_str(&mut s, param_type.name());
                push_str(&mut s, ")");
            },
            ToolValidationError::TypeMismatch { tool, field, expected, actual } => {
                push_str(&mut s, "Tool '");
                push_str(&mut s, tool.as_str());
                push_str(&mut s, "' field '");
                push_str(&mut s, field.as_str());
                push_str(&mut s, "' type mismatch: expected ");
                push_str(&mut s, expected.name());
                push_str(&mut s, ", got ");
                push_str(&mut s, actual.as_str());
            },
        }
        proof {
            assert(s@ =~= self.text());
        }
        s
    }
}

// ------------------------------------------------------------------
// The validation rules, stated over the JSON model
// ------------------------------------------------------------------

/// A schema field of type `t` fails when its argument is `a`.
pub open spec fn field_fails(t: ParamType, a: Option<Json>) -> bool {
    match a {
        None => t != ParamType::Any,
        Some(v) => !t.accepts(v),
    }
}

/// The argument kept for a schema field of type `t`, given `a`.
pub open spec fn field_kept(t: ParamType, a: Option<Json>) -> Option<Json> {
    match a {
        Some(v) => if v is Null && t == ParamType::Any {
            None
        } else {
            Some(v)
        },
        None => None,
    }
}

/// The first schema field, from position `i` on, that fails against the
/// argument object `fs` (`ps.len()` when none does).
pub open spec fn first_failure(
    ps: Seq<(Seq<char>, ParamType)>,
    fs: Seq<(Seq<char>, Json)>,
    i: int,
) -> int
    decreases ps.len() - i,
{
    if i < 0 || i >= ps.len() {
        ps.len() as int
    } else if field_fails(ps[i].1, field_of(fs, ps[i].0)) {
        i
    } else {
        first_failure(ps, fs, i + 1)
    }
}

/// The first schema field, from position `i` on, whose type is not `Any`
/// (`ps.len()` when none is).
pub open spec fn first_required(ps: Seq<(Seq<char>, ParamType)>, i: int) -> int
    decreases ps.len() - i,
{
    if i < 0 || i >= ps.len() {
        ps.len() as int
    } else if ps[i].1 != ParamType::Any {
        i
    } else {
        first_required(ps, i + 1)
    }
}

/// The schema field at which validation of `args` stops
/// (`ps.len()` when the call is accepted).
pub open spec fn failing_field(ps: Seq<(Seq<char>, ParamType)>, args: Json) -> int {
    match args {
        Json::Obj(fs) => first_failure(ps, fs, 0),
        _ => first_required(ps, 0),
    }
}

/// The accepted argument under key `q` of an accepted call.
pub open spec fn accepted_arg(ps: Seq<(Seq<char>, ParamType)>, args: Json, q: Seq<char>) -> Option<
    Json,
> {
    match args {
        Json::Obj(fs) => if has_key(ps, q) {
            field_kept(lookup(ps, q)->0, field_of(fs, q))
        } else {
            None
        },
        _ => None,
    }
}

/// The type name of a JSON value, as error messages give it.
pub open spec fn type_label(v: Json) -> Seq<char> {
    match v {
        Json::Null => "null"@,
        Json::Bool(_) => "boolean"@,
        Json::Num(n) => match n {
            NumModel::Float(_) => "float"@,
            NumModel::Int(_) => "integer"@,
        },
        Json::Str(_) => "string"@,
        Json::Arr(_) => "array"@,
        Json::Obj(_) => "object"@,
    }
}

/// Human-readable type name for a JSON value.
fn json_type_name(value: &JsonValue) -> (s: String)
    ensures
        s@ == type_label(value.model()),
{
    match value {
        JsonValue::Null => owned("null"),
        JsonValue::Bool(_) => owned("boolean"),
        JsonValue::Number(n) => {
            if n.is_float() {
                owned("float")
            } else {
                owned("integer")
            }
        },
        JsonValue::String(_) => owned("string"),
        JsonValue::Array(_) => owned("array"),
        JsonValue::Object(_) => owned("object"),
    }
}


/// The names of the registered schemas, in key order.
pub open spec fn schema_names(tools: Seq<(Seq<char>, ToolSchema)>) -> Seq<Seq<char>> {
    tools.map_values(|e: (Seq<char>, ToolSchema)| e.1.name@)
}

/// Registry of known tool schemas, keyed by lower-cased name.
#[derive(Debug)]
pub struct ToolRegistry {
    tools: StrMap<ToolSchema>,
}

impl View for ToolRegistry {
    type V = Seq<(Seq<char>, ToolSchema)>;

    /// The schemas under their lower-cased names, in key order.
    closed spec fn view(&self) -> Seq<(Seq<char>, ToolSchema)> {
        self.tools@
    }
}

impl ToolRegistry {
    /// Create an empty tool registry.
    pub fn new() -> (r: Self)
        ensures
            r@ == Seq::<(Seq<char>, ToolSchema)>::empty(),
    {
        ToolRegistry { tools: StrMap::new() }
    }

    /// Register a tool schema under its lower-cased name; a schema already
    /// registered under that name is replaced.
    pub fn register(&mut self, schema: ToolSchema)
        ensures
            forall|q: Seq<char>| #[trigger]
                lookup(final(self)@, q) == if q == lowercase(schema.name@) {
                    Some(schema)
                } else {
                    lookup(old(self)@, q)
                },
            final(self)@.len() == old(self)@.len() + if has_key(old(self)@, lowercase(schema.name@)) {
                0int
            } else {
                1int
            },
            is_ascii_seq(schema.name@) ==> lookup(final(self)@, lower_seq(schema.name@)) == Some(
                schema,
            ),
    {
        let key = to_lowercase(schema.name.as_str());
        let ghost s = schema;
        let _ = self.tools.insert(key, schema);
    }

    /// Check if a tool name is registered (case-insensitively).
    pub fn has_tool(&self, name: &str) -> (b: bool)
        ensures
            b == has_key(self@, lowercase(name@)),
            is_ascii_seq(name@) ==> b == has_key(self@, lower_seq(name@)),
    {
        let key = to_lowercase(name);
        self.tools.contains_key(key.as_str())
    }

    /// Get the schema for a registered tool (case-insensitively).
    pub fn get_schema(&self, name: &str) -> (r: Option<&ToolSchema>)
        ensures
            match r {
                Some(s) => lookup(self@, lowercase(name@)) == Some(*s),
                None => !has_key(self@, lowercase(name@)),
            },
            is_ascii_seq(name@) ==> match r {
                Some(s) => lookup(self@, lower_seq(name@)) == Some(*s),
                None => !has_key(self@, lower_seq(name@)),
            },
    {
        let key = to_lowercase(name);
        self.tools.get(key.as_str())
    }

    /// List all registered tool names, sorted.
    pub fn tool_names(&self) -> (names: Vec<String>)
        ensures
            sorted_strs(sviews(names@)),
            sviews(names@).to_multiset() == schema_names(self@).to_multiset(),
    {
        let mut names: Vec<String> = Vec::new();
        let mut i: usize = 0;
        let n = self.tools.len();
        while i < n
            invariant
                i <= n,
                n == self.tools@.len(),
                sviews(names@) == schema_names(self.tools@).take(i as int),
            decreases n - i,
        {
            let ghost prev = sviews(names@);
            let s = self.tools.value_at(i);
            names.push(s.name.clone());
            proof {
                assert(sviews(names@) =~= prev.push(s.name@));
                assert(sviews(names@) =~= schema_names(self.tools@).take(i + 1));
            }
            i += 1;
        }
        proof {
            assert(schema_names(self.tools@).take(n as int) =~= schema_names(self.tools@));
        }
        sort_strings(&names)
    }

    /// Number of registered tools.
    pub fn len(&self) -> (n: usize)
        ensures
            n == self@.len(),
    {
        self.tools.len()
    }

    /// Whether the registry is empty.
    pub fn is_empty(&self) -> (b: bool)
        ensures
            b == (self@.len() == 0),
    {
        self.tools.is_empty()
    }
}

/// The model of an optional JSON value.
pub open spec fn opt_model(o: Option<JsonValue>) -> Option<Json> {
    match o {
        Some(v) => Some(v.model()),
        None => None,
    }
}

/// The argument kept under key `q` once the schema fields before
/// position `i` have been checked.
pub open spec fn kept_before(
    ps: Seq<(Seq<char>, ParamType)>,
    fs: Seq<(Seq<char>, Json)>,
    i: int,
    q: Seq<char>,
) -> Option<Json> {
    if has_key(ps, q) && key_index(ps, q) < i {
        field_kept(ps[key_index(ps, q)].1, field_of(fs, q))
    } else {
        None
    }
}

impl ToolRegistry {
    /// Validate an outbound tool call.
    ///
    /// The tool must be registered (case-insensitively).  Then, when the
    /// arguments are an object, each schema field in key order must be
    /// present with a value of its type, except that a field of type `Any`
    /// may be absent or null; extra fields are ignored.  When the arguments
    /// are not an object, every schema field must be of type `Any`.  The
    /// first field that fails is reported; an accepted call keeps the
    /// schema's fields that were given, except null `Any` fields.
    pub fn validate(&self, name: &str, args: &JsonValue) -> (r: Result<
        ValidatedToolCall,
        ToolValidationError,
    >)
        ensures
            !has_key(self@, lowercase(name@)) <==> r matches Err(
                ToolValidationError::UnknownTool { .. },
            ),
            r matches Err(ToolValidationError::UnknownTool { name: n, known_tools: ks }) ==> {
                &&& n@ == name@
                &&& sorted_strs(sviews(ks@))
                &&& sviews(ks@).to_multiset() == schema_names(self@).to_multiset()
            },
            has_key(self@, lowercase(name@)) ==> {
                let s = lookup(self@, lowercase(name@))->0;
                let ps = s.params@;
                let f = failing_field(ps, args.model());
                &&& 0 <= f <= ps.len()
                &&& (r is Ok <==> f == ps.len())
                &&& (r matches Ok(c) ==> {
                    &&& c.name@ == s.name@
                    &&& forall|q: Seq<char>| #[trigger]
                        opt_model(lookup(c.params@, q)) == accepted_arg(ps, args.model(), q)
                })
                &&& (r matches Err(ToolValidationError::MissingField { tool, field, param_type }) ==> {
                    &&& tool@ == s.name@
                    &&& field@ == ps[f].0
                    &&& param_type == ps[f].1
                })
                &&& (r matches Err(
                    ToolValidationError::TypeMismatch { tool, field, expected, actual },
                ) ==> {
                    &&& tool@ == s.name@
                    &&& field@ == ps[f].0
                    &&& expected == ps[f].1
                    &&& args.model() is Obj
                    &&& field_of(args.model()->Obj_0, ps[f].0) is Some
                    &&& actual@ == type_label(field_of(args.model()->Obj_0, ps[f].0)->0)
                })
                &&& (f < ps.len() ==> (r matches Err(ToolValidationError::MissingField { .. })
                    <==> !(args.model() is Obj) || field_of(args.model()->Obj_0, ps[f].0) is None))
            },
    {
        let schema = match self.get_schema(name) {
            Some(s) => s,
            None => {
                return Err(
                    ToolValidationError::UnknownTool { name: owned(name), known_tools: self.tool_names() },
                );
            },
        };
        let ghost ps = schema.params@;
        let n = schema.params.len();
        match args {
            JsonValue::Object(map) => {
                let ghost fs = obj_fields(map@);
                proof {
                    assert(args.model() == Json::Obj(fs)) by {
                        assert(args.model()->Obj_0 =~= fs);
                    }
                }
                let mut out: StrMap<JsonValue> = StrMap::new();
                let mut i: usize = 0;
                while i < n
                    invariant
                        i <= n,
                        n == ps.len(),
                        ps == schema.params@,
                        has_key(self@, lowercase(name@)),
                        lookup(self@, lowercase(name@)) == Some(*schema),
                        args.model() == Json::Obj(fs),
                        sorted_keys(ps),
                        fs == obj_fields(map@),
                        first_failure(ps, fs, 0) == first_failure(ps, fs, i as int),
                        forall|q: Seq<char>| #[trigger]
                            opt_model(lookup(out@, q)) == kept_before(ps, fs, i as int, q),
                    decreases n - i,
                {
                    let k = schema.params.key_at(i);
                    let t = *schema.params.value_at(i);
                    let ghost kk = ps[i as int].0;
                    proof {
                        lemma_key_index(ps, i as int);
                    }
                    match get_field(map, k.as_str()) {
                        None => {
                            if t != ParamType::Any {
                                return Err(
                                    ToolValidationError::MissingField {
                                        tool: schema.name.clone(),
                                        field: k.clone(),
                                        param_type: t,
                                    },
                                );
                            }
                            proof {
                                assert forall|q: Seq<char>| #[trigger]
                                    opt_model(lookup(out@, q)) == kept_before(
                                        ps,
                                        fs,
                                        i + 1,
                                        q,
                                    ) by {
                                    if has_key(ps, q) && key_index(ps, q) == i {
                                    }
                                }
                            }
                        },
                        Some(v) => {
                            let is_null = matches!(v, JsonValue::Null);
                            if !(is_null && t == ParamType::Any) {
                                if !t.matches(v) {
                                    return Err(
                                        ToolValidationError::TypeMismatch {
                                            tool: schema.name.clone(),
                                            field: k.clone(),
                                            expected: t,
                                            actual: json_type_name(v),
                                        },
                                    );
                                }
                                let ghost before = out@;
                                let c = v.deep_copy();
                                let _ = out.insert(k.clone(), c);
                                proof {
                                    assert forall|q: Seq<char>| #[trigger]
                                        opt_model(lookup(out@, q)) == kept_before(
                                            ps,
                                            fs,
                                            i + 1,
                                            q,
                                        ) by {
                                        if q == kk {
                                        } else {
                                            assert(opt_model(lookup(before, q)) == kept_before(
                                                ps,
                                                fs,
                                                i as int,
                                                q,
                                            ));
                                            if has_key(ps, q) && key_index(ps, q) == i {
                                            }
                                        }
                                    }
                                }
                            } else {
                                proof {
                                    assert forall|q: Seq<char>| #[trigger]
                                        opt_model(lookup(out@, q)) == kept_before(
                                            ps,
                                            fs,
                                            i + 1,
                                            q,
                                        ) by {
                                        if has_key(ps, q) && key_index(ps, q) == i {
                                        }
                                    }
                                }
                            }
                        },
                    }
                    i += 1;
                }
                let call = ValidatedToolCall { name: schema.name.clone(), params: out };
                proof {
                    assert forall|q: Seq<char>| #[trigger]
                        opt_model(lookup(call.params@, q)) == accepted_arg(ps, args.model(), q) by {
                        assert(opt_model(lookup(out@, q)) == kept_before(ps, fs, n as int, q));
                        if has_key(ps, q) {
                            let j = key_index(ps, q);
                            assert(0 <= j < ps.len() && ps[j].0 == q);
                        }
                    }
                }
                Ok(call)
            },
            _ => {
                let mut i: usize = 0;
                assert(!(args.model() is Obj));
                while i < n
                    invariant
                        i <= n,
                        n == ps.len(),
                        ps == schema.params@,
                        has_key(self@, lowercase(name@)),
                        lookup(self@, lowercase(name@)) == Some(*schema),
                        !(args.model() is Obj),
                        first_required(ps, 0) == first_required(ps, i as int),
                    decreases n - i,
                {
                    let t = *schema.params.value_at(i);
                    if t != ParamType::Any {
                        let k = schema.params.key_at(i);
                        return Err(
                            ToolValidationError::MissingField {
                                tool: schema.name.clone(),
                                field: k.clone(),
                                param_type: t,
                            },
                        );
                    }
                    i += 1;
                }
                let call = ValidatedToolCall { name: schema.name.clone(), params: StrMap::new() };
                Ok(call)
            },
        }
    }
}

/// Tool lookup ignores the case of an ASCII name: upper-casing it finds
/// the same tool, or none, in any registry (`has_tool`, `get_schema`).
pub proof fn law_tool_lookup_ignores_case(m: Seq<(Seq<char>, ToolSchema)>, name: Seq<char>)
    requires
        is_ascii_seq(name),
    ensures
        is_ascii_seq(upper_seq(name)),
        has_key(m, lower_seq(upper_seq(name))) == has_key(m, lower_seq(name)),
        lookup(m, lower_seq(upper_seq(name))) == lookup(m, lower_seq(name)),
{
    crate::text::law_ascii_case_insensitive(name);
}

/// An Integer field accepts a JSON value exactly when it is an integer
/// number: every float number is refused (and reported as "float"), every
/// integer number accepted; a Float field accepts both kinds of number.
pub proof fn law_integer_accepts_only_integers(i: int, f: Seq<char>, v: Json)
    ensures
        ParamType::Integer.accepts(Json::Num(NumModel::Int(i))),
        !ParamType::Integer.accepts(Json::Num(NumModel::Float(f))),
        type_label(Json::Num(NumModel::Float(f))) == "float"@,
        ParamType::Float.accepts(Json::Num(NumModel::Int(i))),
        ParamType::Float.accepts(Json::Num(NumModel::Float(f))),
        !(v is Num) ==> !ParamType::Integer.accepts(v) && !ParamType::Float.accepts(v),
{
}

} // verus!
