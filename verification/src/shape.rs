//! What the generated ink! code of a function or trait method looks like,
//! decided from its header: visibility, message attribute, name, receiver,
//! parameters, return types and the named outputs. The code generator only
//! renders these values.

use vstd::prelude::*;
use crate::structures::{FunctionHeader, FunctionParam};
use crate::formatter::strings_view;
use convert_case::{Case::Snake, Casing};

verus! {

/// What `convert_case` turns `s` into for `Case::Snake`.
pub uninterp spec fn snake_case(s: Seq<char>) -> Seq<char>;

/// `Casing::to_case(s, Case::Snake)` of the `convert_case` crate. Claims that
/// the answer is the named result `snake_case`.
#[verifier::external_body]
fn to_snake(s: &String) -> (r: String)
    ensures
        r@ == snake_case(s@),
{
    s.to_case(Snake)
}

/// The generated shape of a contract function.
pub struct FunctionShape {
    /// `pub fn` rather than a private `fn _name`.
    pub public: bool,
    /// Carries `#[ink(message)]`.
    pub message: bool,
    /// The message is `payable`.
    pub payable: bool,
    /// The Rust name: snake case, with `_` before a private function's name.
    pub name: String,
    /// Takes `&mut self` rather than `&self`.
    pub self_mut: bool,
    /// Each parameter's snake-case name and type.
    pub params: Vec<(String, String)>,
    /// The types of the `Result` value: none for `()`, one, or a tuple.
    pub returns: Vec<String>,
    /// The snake-case names of the named outputs, declared at the start of
    /// the body.
    pub declared: Vec<String>,
    /// The names returned at the end of the body, where the first output is
    /// named.
    pub outputs: Option<Vec<String>>,
}

/// The generated shape of a trait method.
pub struct HeaderShape {
    pub message: bool,
    pub payable: bool,
    /// The snake-case name.
    pub name: String,
    pub self_mut: bool,
    pub params: Vec<(String, String)>,
    pub returns: Vec<String>,
}

/// The parameters as (snake-case name, type).
pub open spec fn params_shape(params: Seq<FunctionParam>) -> Seq<(Seq<char>, Seq<char>)> {
    params.map_values(|p: FunctionParam| (snake_case(p.name@), p.param_type@))
}

/// The views of (name, type) pairs.
pub open spec fn pairs_view(v: Seq<(String, String)>) -> Seq<(Seq<char>, Seq<char>)> {
    v.map_values(|p: (String, String)| (p.0@, p.1@))
}

/// The types of the return parameters.
pub open spec fn return_types(params: Seq<FunctionParam>) -> Seq<Seq<char>> {
    params.map_values(|p: FunctionParam| p.param_type@)
}

/// The snake-case names of the return parameters not named `_`.
pub open spec fn declared_outputs(params: Seq<FunctionParam>) -> Seq<Seq<char>>
    decreases params.len(),
{
    if params.len() == 0 {
        Seq::empty()
    } else {
        let rest = declared_outputs(params.drop_last());
        if params.last().name@ == "_"@ {
            rest
        } else {
            rest.push(snake_case(params.last().name@))
        }
    }
}

/// The names returned where the first return parameter is named.
pub open spec fn returned_outputs(params: Seq<FunctionParam>) -> Option<Seq<Seq<char>>> {
    if params.len() > 0 && params[0].name@ != "_"@ {
        Some(params.map_values(|p: FunctionParam| p.name@))
    } else {
        None
    }
}

fn param_pairs(params: &Vec<FunctionParam>) -> (r: Vec<(String, String)>)
    ensures
        pairs_view(r@) == params_shape(params@),
{
    let mut out: Vec<(String, String)> = Vec::new();
    let mut i: usize = 0;
    while i < params.len()
        invariant
            i <= params.len(),
            pairs_view(out@) == params_shape(params@).subrange(0, i as int),
        decreases params.len() - i,
    {
        let pair = (to_snake(&params[i].name), params[i].param_type.clone());
        let ghost before = out@;
        out.push(pair);
        assert(pairs_view(out@) =~= pairs_view(before).push((pair.0@, pair.1@)));
        assert(params_shape(params@).subrange(0, i + 1) =~= params_shape(params@).subrange(0, i as int).push(
            (pair.0@, pair.1@),
        ));
        i = i + 1;
    }
    assert(params_shape(params@).subrange(0, params@.len() as int) =~= params_shape(params@));
    out
}

fn types_of(params: &Vec<FunctionParam>) -> (r: Vec<String>)
    ensures
        strings_view(r@) == return_types(params@),
{
    let mut out: Vec<String> = Vec::new();
    let mut i: usize = 0;
    while i < params.len()
        invariant
            i <= params.len(),
            strings_view(out@) == return_types(params@).subrange(0, i as int),
        decreases params.len() - i,
    {
        let t = params[i].param_type.clone();
        let ghost before = out@;
        out.push(t);
        assert(strings_view(out@) =~= strings_view(before).push(t@));
        assert(return_types(params@).subrange(0, i + 1) =~= return_types(params@).subrange(0, i as int).push(t@));
        i = i + 1;
    }
    assert(return_types(params@).subrange(0, params@.len() as int) =~= return_types(params@));
    out
}

fn names_of(params: &Vec<FunctionParam>) -> (r: Vec<String>)
    ensures
        strings_view(r@) == params@.map_values(|p: FunctionParam| p.name@),
{
    let ghost target = params@.map_values(|p: FunctionParam| p.name@);
    let mut out: Vec<String> = Vec::new();
    let mut i: usize = 0;
    while i < params.len()
        invariant
            i <= params.len(),
            target == params@.map_values(|p: FunctionParam| p.name@),
            strings_view(out@) == target.subrange(0, i as int),
        decreases params.len() - i,
    {
        let n = params[i].name.clone();
        let ghost before = out@;
        out.push(n);
        assert(strings_view(out@) =~= strings_view(before).push(n@));
        assert(target.subrange(0, i + 1) =~= target.subrange(0, i as int).push(n@));
        i = i + 1;
    }
    assert(target.subrange(0, target.len() as int) =~= target);
    out
}

fn is_placeholder(s: &String) -> (r: bool)
    ensures
        r == (s@ == "_"@),
{
    let v = crate::text::chars_of_string(s);
    crate::text::chars_eq_str(&v, "_")
}

fn declared_names(params: &Vec<FunctionParam>) -> (r: Vec<String>)
    ensures
        strings_view(r@) == declared_outputs(params@),
{
    let mut out: Vec<String> = Vec::new();
    let mut i: usize = 0;
    assert(params@.subrange(0, 0) =~= Seq::<FunctionParam>::empty());
    while i < params.len()
        invariant
            i <= params.len(),
            strings_view(out@) == declared_outputs(params@.subrange(0, i as int)),
        decreases params.len() - i,
    {
        let ghost prefix = params@.subrange(0, i + 1);
        assert(prefix.drop_last() =~= params@.subrange(0, i as int));
        assert(prefix.last() == params@[i as int]);
        if !is_placeholder(&params[i].name) {
            let n = to_snake(&params[i].name);
            let ghost before = out@;
            out.push(n);
            assert(strings_view(out@) =~= strings_view(before).push(n@));
        }
        i = i + 1;
    }
    assert(params@.subrange(0, params@.len() as int) =~= params@);
    out
}

/// The shape of the generated contract function for `h`.
pub fn function_shape(h: &FunctionHeader) -> (r: FunctionShape)
    ensures
        r.public == h.external,
        r.message == h.external,
        r.payable == (h.external && h.payable),
        r.name@ == (if h.external {
            Seq::empty()
        } else {
            seq!['_']
        }) + snake_case(h.name@),
        r.self_mut == !h.view,
        pairs_view(r.params@) == params_shape(h.params@),
        strings_view(r.returns@) == return_types(h.return_params@),
        strings_view(r.declared@) == declared_outputs(h.return_params@),
        match r.outputs {
            Some(o) => returned_outputs(h.return_params@) == Some(strings_view(o@)),
            None => returned_outputs(h.return_params@) is None,
        },
{
    let snake = to_snake(&h.name);
    let name = if h.external {
        snake
    } else {
        let mut n: Vec<char> = Vec::new();
        n.push('_');
        let rest = crate::text::chars_of_string(&snake);
        crate::text::push_all(&mut n, &rest);
        crate::text::string_from_chars(&n)
    };
    proof {
        if !h.external {
            assert(name@ =~= seq!['_'] + snake_case(h.name@));
        } else {
            assert(name@ =~= Seq::<char>::empty() + snake_case(h.name@));
        }
    }
    let outputs = if h.return_params.len() > 0 && !is_placeholder(&h.return_params[0].name) {
        Some(names_of(&h.return_params))
    } else {
        None
    };
    FunctionShape {
        public: h.external,
        message: h.external,
        payable: h.external && h.payable,
        name,
        self_mut: !h.view,
        params: param_pairs(&h.params),
        returns: types_of(&h.return_params),
        declared: declared_names(&h.return_params),
        outputs,
    }
}

/// The shape of the generated trait method for `h`.
pub fn header_shape(h: &FunctionHeader) -> (r: HeaderShape)
    ensures
        r.message == h.external,
        r.payable == (h.external && h.payable),
        r.name@ == snake_case(h.name@),
        r.self_mut == !h.view,
        pairs_view(r.params@) == params_shape(h.params@),
        strings_view(r.returns@) == return_types(h.return_params@),
{
    HeaderShape {
        message: h.external,
        payable: h.external && h.payable,
        name: to_snake(&h.name),
        self_mut: !h.view,
        params: param_pairs(&h.params),
        returns: types_of(&h.return_params),
    }
}

} // verus!
