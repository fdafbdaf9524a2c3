//! Parameter schemas and the validation of untyped parameter maps against
//! them.
use vstd::prelude::*;

verus! {

/// An untyped parameter value as a caller supplies it. `Other` stands for
/// every value of no parameter type: null, a number that is not a 64-bit
/// integer, a list or a mapping.
#[derive(Clone, Debug)]
pub enum ParamValue {
    Text(String),
    Integer(i64),
    Boolean(bool),
    Other,
}

/// The declared type of a parameter.
#[derive(Clone, Copy, Debug, PartialEq, Eq, Structural)]
pub enum ParamType {
    Text,
    Integer,
    Boolean,
}

/// A parameter value of a declared type.
#[derive(Clone, Debug)]
pub enum ArgValue {
    Text(String),
    Integer(i64),
    Boolean(bool),
}

pub enum ArgView {
    Text(Seq<char>),
    Integer(int),
    Boolean(bool),
}

impl View for ArgValue {
    type V = ArgView;

    open spec fn view(&self) -> ArgView {
        match self {
            ArgValue::Text(s) => ArgView::Text(s@),
            ArgValue::Integer(n) => ArgView::Integer(*n as int),
            ArgValue::Boolean(b) => ArgView::Boolean(*b),
        }
    }
}

/// The declaration of one parameter of an action.
#[derive(Clone, Debug)]
pub struct ParameterSpec {
    pub name: String,
    pub description: String,
    pub param_type: ParamType,
    pub required: bool,
    pub default_value: Option<ArgValue>,
}

/// What validation reads of a parameter declaration.
pub struct ParamShape {
    pub name: Seq<char>,
    pub param_type: ParamType,
    pub default_value: Option<ArgView>,
}

pub open spec fn opt_arg(o: Option<ArgValue>) -> Option<ArgView> {
    match o {
        Some(a) => Some(a@),
        None => None,
    }
}

impl View for ParameterSpec {
    type V = ParamShape;

    open spec fn view(&self) -> ParamShape {
        ParamShape {
            name: self.name@,
            param_type: self.param_type,
            default_value: opt_arg(self.default_value),
        }
    }
}

impl ParameterSpec {
    /// A parameter is optional exactly when it has a default, and the default
    /// is of the declared type.
    pub open spec fn wf(&self) -> bool {
        &&& self.required == (self.default_value is None)
        &&& match self.default_value {
            Some(d) => arg_has_type(d@, self.param_type),
            None => true,
        }
    }
}

pub open spec fn arg_has_type(a: ArgView, t: ParamType) -> bool {
    match a {
        ArgView::Text(_) => t == ParamType::Text,
        ArgView::Integer(_) => t == ParamType::Integer,
        ArgView::Boolean(_) => t == ParamType::Boolean,
    }
}

pub open spec fn shapes(v: Seq<ParameterSpec>) -> Seq<ParamShape> {
    v.map_values(|p: ParameterSpec| p@)
}

/// Index of the first entry named `name` at or after `i`, or -1.
pub open spec fn find_param(ps: Seq<(String, ParamValue)>, name: Seq<char>, i: int) -> int
    decreases ps.len() - i,
{
    if i < 0 || i >= ps.len() {
        -1
    } else if ps[i].0@ == name {
        i
    } else {
        find_param(ps, name, i + 1)
    }
}

pub proof fn lemma_find_param(ps: Seq<(String, ParamValue)>, name: Seq<char>, i: int)
    requires
        0 <= i,
    ensures
        find_param(ps, name, i) == -1 || (i <= find_param(ps, name, i) < ps.len()
            && ps[find_param(ps, name, i)].0@ == name),
        find_param(ps, name, i) == -1 ==> forall|k: int| i <= k < ps.len() ==> ps[k].0@ != name,
    decreases ps.len() - i,
{
    if i < ps.len() && ps[i].0@ != name {
        lemma_find_param(ps, name, i + 1);
    }
}

/// The value given for `name`: that of its first entry.
pub open spec fn lookup(ps: Seq<(String, ParamValue)>, name: Seq<char>) -> Option<ParamValue> {
    let k = find_param(ps, name, 0);
    if 0 <= k < ps.len() {
        Some(ps[k].1)
    } else {
        None
    }
}

pub open spec fn missing_message(name: Seq<char>) -> Seq<char> {
    "Required parameter '"@ + name + "' not provided"@
}

pub open spec fn type_message(t: ParamType, name: Seq<char>) -> Seq<char> {
    "Parameter '"@ + name + match t {
        ParamType::Text => "' must be a string"@,
        ParamType::Integer => "' must be an integer"@,
        ParamType::Boolean => "' must be a boolean"@,
    }
}

/// The typed value that `v` gives for type `t`, if it is of that type.
pub open spec fn typed(v: ParamValue, t: ParamType) -> Option<ArgView> {
    match v {
        ParamValue::Text(s) => if t == ParamType::Text { Some(ArgView::Text(s@)) } else { None },
        ParamValue::Integer(n) => if t == ParamType::Integer {
            Some(ArgView::Integer(n as int))
        } else {
            None
        },
        ParamValue::Boolean(b) => if t == ParamType::Boolean {
            Some(ArgView::Boolean(b))
        } else {
            None
        },
        ParamValue::Other => None,
    }
}

/// The value of a declared parameter in `ps`: the given value when it has
/// the declared type, else a type error; the default when none is given,
/// else a missing-parameter error. Entries of no declared name are ignored.
pub open spec fn param_outcome(p: ParamShape, ps: Seq<(String, ParamValue)>) -> Result<
    ArgView,
    Seq<char>,
> {
    match lookup(ps, p.name) {
        Some(v) => match typed(v, p.param_type) {
            Some(a) => Ok(a),
            None => Err(type_message(p.param_type, p.name)),
        },
        None => match p.default_value {
            Some(d) => Ok(d),
            None => Err(missing_message(p.name)),
        },
    }
}

/// The values of all declared parameters, in declaration order, or the
/// error of the first that fails.
pub open spec fn validated(decl: Seq<ParamShape>, ps: Seq<(String, ParamValue)>) -> Result<
    Seq<ArgView>,
    Seq<char>,
>
    decreases decl.len(),
{
    if decl.len() == 0 {
        Ok(seq![])
    } else {
        match validated(decl.drop_last(), ps) {
            Ok(args) => match param_outcome(decl.last(), ps) {
                Ok(a) => Ok(args.push(a)),
                Err(e) => Err(e),
            },
            Err(e) => Err(e),
        }
    }
}

pub open spec fn arg_views(v: Seq<ArgValue>) -> Seq<ArgView> {
    v.map_values(|a: ArgValue| a@)
}

fn message(prefix: &str, name: &str, suffix: &str) -> (r: String)
    ensures
        r@ == prefix@ + name@ + suffix@,
{
    String::from_str(prefix).concat(name).concat(suffix)
}

fn find_entry(params: &Vec<(String, ParamValue)>, name: &str) -> (r: Option<usize>)
    ensures
        match r {
            Some(k) => k as int == find_param(params@, name@, 0) && k < params@.len(),
            None => find_param(params@, name@, 0) == -1,
        },
{
    let mut i: usize = 0;
    while i < params.len()
        invariant
            i <= params.len(),
            find_param(params@, name@, 0) == find_param(params@, name@, i as int),
        decreases params.len() - i,
    {
        if crate::text::text_eq(params[i].0.as_str(), name) {
            return Some(i);
        }
        i = i + 1;
    }
    None
}

/// The value given for `name`, if any.
pub fn get_param<'a>(params: &'a Vec<(String, ParamValue)>, name: &str) -> (r: Option<
    &'a ParamValue,
>)
    ensures
        match r {
            Some(v) => lookup(params@, name@) == Some(*v),
            None => lookup(params@, name@) is None,
        },
{
    match find_entry(params, name) {
        Some(k) => Some(&params[k].1),
        None => None,
    }
}

/// Reads a required string parameter.
pub fn extract_string(params: &Vec<(String, ParamValue)>, name: &str) -> (r: Result<
    String,
    String,
>)
    ensures
        match lookup(params@, name@) {
            Some(ParamValue::Text(s)) => r is Ok && r->Ok_0@ == s@,
            Some(_) => r is Err && r->Err_0@ == type_message(ParamType::Text, name@),
            None => r is Err && r->Err_0@ == missing_message(name@),
        },
{
    match extract_string_opt(params, name) {
        Ok(Some(s)) => Ok(s),
        Ok(None) => Err(message("Required parameter '", name, "' not provided")),
        Err(e) => Err(e),
    }
}

/// Reads an optional string parameter.
pub fn extract_string_opt(params: &Vec<(String, ParamValue)>, name: &str) -> (r: Result<
    Option<String>,
    String,
>)
    ensures
        match lookup(params@, name@) {
            Some(ParamValue::Text(s)) => r is Ok && r->Ok_0 is Some && r->Ok_0->Some_0@ == s@,
            Some(_) => r is Err && r->Err_0@ == type_message(ParamType::Text, name@),
            None => r is Ok && r->Ok_0 is None,
        },
{
    match get_param(params, name) {
        Some(ParamValue::Text(s)) => Ok(Some(s.clone())),
        Some(_) => Err(message("Parameter '", name, "' must be a string")),
        None => Ok(None),
    }
}

/// Reads a required integer parameter.
pub fn extract_int(params: &Vec<(String, ParamValue)>, name: &str) -> (r: Result<i64, String>)
    ensures
        match lookup(params@, name@) {
            Some(ParamValue::Integer(n)) => r == Ok::<i64, String>(n),
            Some(_) => r is Err && r->Err_0@ == type_message(ParamType::Integer, name@),
            None => r is Err && r->Err_0@ == missing_message(name@),
        },
{
    match extract_int_opt(params, name) {
        Ok(Some(n)) => Ok(n),
        Ok(None) => Err(message("Required parameter '", name, "' not provided")),
        Err(e) => Err(e),
    }
}

/// Reads an optional integer parameter.
pub fn extract_int_opt(params: &Vec<(String, ParamValue)>, name: &str) -> (r: Result<
    Option<i64>,
    String,
>)
    ensures
        match lookup(params@, name@) {
            Some(ParamValue::Integer(n)) => r == Ok::<Option<i64>, String>(Some(n)),
            Some(_) => r is Err && r->Err_0@ == type_message(ParamType::Integer, name@),
            None => r == Ok::<Option<i64>, String>(None),
        },
{
    match get_param(params, name) {
        Some(ParamValue::Integer(n)) => Ok(Some(*n)),
        Some(_) => Err(message("Parameter '", name, "' must be an integer")),
        None => Ok(None),
    }
}

/// Reads an optional boolean parameter.
pub fn extract_bool_opt(params: &Vec<(String, ParamValue)>, name: &str) -> (r: Result<
    Option<bool>,
    String,
>)
    ensures
        match lookup(params@, name@) {
            Some(ParamValue::Boolean(b)) => r == Ok::<Option<bool>, String>(Some(b)),
            Some(_) => r is Err && r->Err_0@ == type_message(ParamType::Boolean, name@),
            None => r == Ok::<Option<bool>, String>(None),
        },
{
    match get_param(params, name) {
        Some(ParamValue::Boolean(b)) => Ok(Some(*b)),
        Some(_) => Err(message("Parameter '", name, "' must be a boolean")),
        None => Ok(None),
    }
}

fn clone_arg(a: &ArgValue) -> (r: ArgValue)
    ensures
        r@ == a@,
{
    match a {
        ArgValue::Text(s) => ArgValue::Text(s.clone()),
        ArgValue::Integer(n) => ArgValue::Integer(*n),
        ArgValue::Boolean(b) => ArgValue::Boolean(*b),
    }
}

/// The value of one declared parameter.
pub fn extract_param(p: &ParameterSpec, params: &Vec<(String, ParamValue)>) -> (r: Result<
    ArgValue,
    String,
>)
    ensures
        match param_outcome(p@, params@) {
            Ok(a) => r is Ok && r->Ok_0@ == a,
            Err(e) => r is Err && r->Err_0@ == e,
        },
{
    let name = p.name.as_str();
    let given = match p.param_type {
        ParamType::Text => match extract_string_opt(params, name) {
            Ok(o) => match o {
                Some(s) => Some(ArgValue::Text(s)),
                None => None,
            },
            Err(e) => return Err(e),
        },
        ParamType::Integer => match extract_int_opt(params, name) {
            Ok(o) => match o {
                Some(n) => Some(ArgValue::Integer(n)),
                None => None,
            },
            Err(e) => return Err(e),
        },
        ParamType::Boolean => match extract_bool_opt(params, name) {
            Ok(o) => match o {
                Some(b) => Some(ArgValue::Boolean(b)),
                None => None,
            },
            Err(e) => return Err(e),
        },
    };
    match given {
        Some(a) => Ok(a),
        None => match &p.default_value {
            Some(d) => Ok(clone_arg(d)),
            None => Err(message("Required parameter '", name, "' not provided")),
        },
    }
}

/// Validates `params` against the declarations `decl`: the value of each
/// declared parameter in order, or the error of the first that fails.
pub fn validate_params(decl: &Vec<ParameterSpec>, params: &Vec<(String, ParamValue)>) -> (r:
    Result<Vec<ArgValue>, String>)
    ensures
        match validated(shapes(decl@), params@) {
            Ok(args) => r is Ok && arg_views(r->Ok_0@) == args,
            Err(e) => r is Err && r->Err_0@ == e,
        },
{
    let mut out: Vec<ArgValue> = Vec::new();
    let mut i: usize = 0;
    assert(shapes(decl@).take(0).len() == 0);
    assert(arg_views(out@) =~= Seq::<ArgView>::empty());
    while i < decl.len()
        invariant
            i <= decl.len(),
            validated(shapes(decl@).take(i as int), params@) == Ok::<Seq<ArgView>, Seq<char>>(
                arg_views(out@),
            ),
        decreases decl.len() - i,
    {
        assert(shapes(decl@).take(i as int + 1).drop_last() =~= shapes(decl@).take(i as int));
        assert(shapes(decl@).take(i as int + 1).last() == decl@[i as int]@);
        let ghost before = out@;
        match extract_param(&decl[i], params) {
            Ok(a) => {
                out.push(a);
                assert(arg_views(out@) =~= arg_views(before).push(a@));
            },
            Err(e) => {
                proof {
                    lemma_validated_err(shapes(decl@), params@, i as int + 1);
                }
                return Err(e);
            },
        }
        i = i + 1;
    }
    assert(shapes(decl@).take(decl.len() as int) =~= shapes(decl@));
    Ok(out)
}

/// Once a prefix of the declarations fails, the whole fails with the same
/// error.
proof fn lemma_validated_err(decl: Seq<ParamShape>, ps: Seq<(String, ParamValue)>, k: int)
    requires
        0 <= k <= decl.len(),
        validated(decl.take(k), ps) is Err,
    ensures
        validated(decl, ps) == validated(decl.take(k), ps),
    decreases decl.len() - k,
{
    if k < decl.len() {
        assert(decl.take(k + 1).drop_last() =~= decl.take(k));
        lemma_validated_err(decl, ps, k + 1);
    } else {
        assert(decl.take(k) =~= decl);
    }
}

} // verus!
