//! Module configuration templates and the runtime API modules built from
//! them.

use vstd::prelude::*;
use crate::error::ApiError;
use crate::param::{ApiParam, ParamModel, param_inv, encode_pair};

verus! {

broadcast use vstd::string::group_string_axioms;

/// Mathematical model of an [`ApiConfig`].
#[verifier::ext_equal]
pub struct ConfigModel {
    pub name: Seq<char>,
    pub path: Seq<char>,
    pub parameter_names: Seq<Seq<char>>,
}

/// True when no two entries of `names` are equal.
pub open spec fn distinct_names(names: Seq<Seq<char>>) -> bool {
    forall|i: int, j: int| 0 <= i < j < names.len() ==> names[i] != names[j]
}

/// The invariant of a configuration: the path segment is non-empty, every
/// declared parameter name is non-empty, and no parameter name repeats.
pub open spec fn config_inv(c: ConfigModel) -> bool {
    &&& c.path.len() > 0
    &&& forall|i: int| 0 <= i < c.parameter_names.len() ==> c.parameter_names[i].len() > 0
    &&& distinct_names(c.parameter_names)
}

/// Immutable descriptor of one remote resource: a display name, a URL path
/// segment, and the ordered set of accepted query parameter names.
#[derive(Debug)]
pub struct ApiConfig {
    pub name: String,
    pub path: String,
    pub parameter_names: Vec<String>,
}

impl View for ApiConfig {
    type V = ConfigModel;

    open spec fn view(&self) -> ConfigModel {
        ConfigModel {
            name: self.name@,
            path: self.path@,
            parameter_names: self.parameter_names.deep_view(),
        }
    }
}

impl DeepView for ApiConfig {
    type V = ConfigModel;

    open spec fn deep_view(&self) -> ConfigModel {
        self.view()
    }
}

impl ApiConfig {
    /// Packs the three descriptor fields into a configuration template.
    pub fn new(name: String, path: String, parameter_names: Vec<String>) -> (r: ApiConfig)
        ensures
            r@ == (ConfigModel {
                name: name@,
                path: path@,
                parameter_names: parameter_names.deep_view(),
            }),
    {
        let r = ApiConfig { name, path, parameter_names };
        proof {
            assert(r@ =~= (ConfigModel {
                name: name@,
                path: path@,
                parameter_names: parameter_names.deep_view(),
            }));
        }
        r
    }
}

/// Mathematical model of an [`Api`] module: its name, path, declared
/// parameter names, and the current parameter bindings.
#[verifier::ext_equal]
pub struct ApiModel {
    pub name: Seq<char>,
    pub path: Seq<char>,
    pub param_names: Seq<Seq<char>>,
    pub params: Seq<ParamModel>,
}

/// The names of a sequence of parameters, in order.
pub open spec fn param_name_seq(params: Seq<ParamModel>) -> Seq<Seq<char>> {
    params.map_values(|p: ParamModel| p.name)
}

/// The invariant of a module: a non-empty path, exactly one parameter per
/// declared name (index-aligned), well-formed parameters, and no duplicate
/// parameter names.
pub open spec fn api_inv(m: ApiModel) -> bool {
    &&& m.path.len() > 0
    &&& m.param_names == param_name_seq(m.params)
    &&& forall|i: int| 0 <= i < m.params.len() ==> param_inv(#[trigger] m.params[i])
    &&& distinct_names(m.param_names)
}

/// True when the module declares a parameter named `name`.
pub open spec fn has_param(m: ApiModel, name: Seq<char>) -> bool {
    exists|i: int| 0 <= i < m.params.len() && m.params[i].name == name
}

/// The module after binding `value` to every parameter named `name` (under
/// the invariant there is at most one such parameter).
pub open spec fn with_param_set(m: ApiModel, name: Seq<char>, value: Seq<char>) -> ApiModel {
    ApiModel {
        params: Seq::new(
            m.params.len(),
            |i: int|
                if m.params[i].name == name {
                    ParamModel { name: name, value: value }
                } else {
                    m.params[i]
                },
        ),
        ..m
    }
}

/// The freshly built module for a configuration: one parameter per declared
/// name, every value empty.
pub open spec fn module_of(c: ConfigModel) -> ApiModel {
    ApiModel {
        name: c.name,
        path: c.path,
        param_names: c.parameter_names,
        params: c.parameter_names.map_values(
            |n: Seq<char>| ParamModel { name: n, value: Seq::<char>::empty() },
        ),
    }
}

/// The query string for a sequence of parameters: the `name=value` pairs of
/// the parameters whose value is non-empty, in declaration order, joined
/// with `&`. Parameters with an empty value are omitted entirely.
pub open spec fn query_of(params: Seq<ParamModel>) -> Seq<char>
    decreases params.len(),
{
    if params.len() == 0 {
        Seq::<char>::empty()
    } else {
        let rest = query_of(params.drop_last());
        let last = params.last();
        if last.value.len() == 0 {
            rest
        } else if rest.len() == 0 {
            encode_pair(last.name, last.value)
        } else {
            rest + seq!['&'] + encode_pair(last.name, last.value)
        }
    }
}

/// A runtime instance of one remote API resource, bound to its
/// configuration; owns one [`ApiParam`] for every declared parameter name.
#[derive(Debug)]
pub struct Api {
    config_obj: ApiConfig,
    params: Vec<ApiParam>,
}

impl View for Api {
    type V = ApiModel;

    closed spec fn view(&self) -> ApiModel {
        ApiModel {
            name: self.config_obj.name@,
            path: self.config_obj.path@,
            param_names: self.config_obj.parameter_names.deep_view(),
            params: self.params.deep_view(),
        }
    }
}

impl DeepView for Api {
    type V = ApiModel;

    open spec fn deep_view(&self) -> ApiModel {
        self.view()
    }
}

impl Api {
    /// Well-formedness: the module's model satisfies [`api_inv`].
    pub open spec fn wf(&self) -> bool {
        api_inv(self@)
    }

    /// Builds a module from a configuration: one parameter with an empty
    /// value per declared name, in declaration order.
    pub fn new(config: ApiConfig) -> (r: Api)
        requires
            config_inv(config@),
        ensures
            r@ == module_of(config@),
            r.wf(),
    {
        let mut params: Vec<ApiParam> = Vec::new();
        let n = config.parameter_names.len();
        let mut i: usize = 0;
        while i < n
            invariant
                i <= n,
                n == config.parameter_names.len(),
                params.deep_view().len() == i,
                forall|j: int|
                    0 <= j < i ==> params.deep_view()[j] == (ParamModel {
                        name: config.parameter_names.deep_view()[j],
                        value: Seq::<char>::empty(),
                    }),
            decreases n - i,
        {
            let ghost prev = params.deep_view();
            params.push(ApiParam::new(&config.parameter_names[i]));
            proof {
                assert(params.deep_view() =~= prev.push(ParamModel {
                    name: config.parameter_names.deep_view()[i as int],
                    value: Seq::<char>::empty(),
                }));
            }
            i += 1;
        }
        let r = Api { config_obj: config, params };
        proof {
            assert(r@.params =~= module_of(config@).params);
            assert(r@ =~= module_of(config@));
            assert(r@.param_names =~= param_name_seq(r@.params));
        }
        r
    }

    /// The module's display name (from its configuration).
    pub fn name(&self) -> (r: &String)
        ensures
            r@ == self@.name,
    {
        &self.config_obj.name
    }

    /// True exactly when this module's name equals `name`.
    pub fn has_name(&self, name: &String) -> (r: bool)
        ensures
            r == (self@.name == name@),
    {
        self.config_obj.name == *name
    }

    /// The module's URL path segment (from its configuration).
    pub fn path(&self) -> (r: &String)
        ensures
            r@ == self@.path,
    {
        &self.config_obj.path
    }

    /// The declared parameter names, in configuration order.
    pub fn list_params(&self) -> (r: &Vec<String>)
        ensures
            r.deep_view() == self@.param_names,
    {
        &self.config_obj.parameter_names
    }

    /// The owned parameters, index-aligned with the declared names.
    pub fn get_api_params(&self) -> (r: &Vec<ApiParam>)
        ensures
            r.deep_view() == self@.params,
    {
        &self.params
    }

    /// Binds `value` to the declared parameter named `name`. Fails with
    /// `UnknownParameter` — leaving every binding unchanged — when `name` is
    /// not among the declared parameter names.
    pub fn set_parameter(&mut self, name: &str, value: &str) -> (r: Result<(), ApiError>)
        requires
            old(self).wf(),
        ensures
            final(self).wf(),
            r is Ok <==> has_param(old(self)@, name@),
            r is Ok ==> final(self)@ == with_param_set(old(self)@, name@, value@),
            r is Err ==> r == Err::<(), ApiError>(ApiError::UnknownParameter) && *final(self)
                == *old(self),
    {
        let key: String = name.to_owned();
        let n = self.params.len();
        let mut i: usize = 0;
        while i < n
            invariant
                i <= n,
                n == self.params.len(),
                old(self).wf(),
                *self == *old(self),
                key@ == name@,
                forall|j: int| 0 <= j < i ==> old(self)@.params[j].name != name@,
            decreases n - i,
        {
            if self.params[i].has_name(&key) {
                let p = &mut self.params[i];
                p.update_value(value);
                proof {
                    assert(old(self)@.params[i as int].name == name@);
                    assert(has_param(old(self)@, name@));
                    let before = old(self)@;
                    let now = final(self)@;
                    let updated = with_param_set(before, name@, value@);
                    assert forall|j: int|
                        0 <= j < updated.params.len() implies now.params[j] == updated.params[j] by {
                        if j != i as int {
                            assert(before.param_names[j] == before.params[j].name);
                            assert(before.param_names[i as int] == before.params[i as int].name);
                            assert(before.params[j].name != name@);
                        }
                    }
                    assert(now.params =~= updated.params);
                    assert(now =~= updated);
                    assert(now.param_names =~= param_name_seq(now.params));
                }
                return Ok(());
            }
            i += 1;
        }
        proof {
            assert(!has_param(old(self)@, name@));
        }
        Err(ApiError::UnknownParameter)
    }

    /// Serializes the owned parameters into a query string: non-empty values
    /// only, declaration order, `name=value` pairs joined with `&`. Returns
    /// the empty string when no parameter has a value set.
    pub fn build_query_string(&self) -> (r: String)
        ensures
            r@ == query_of(self@.params),
    {
        proof {
            reveal_strlit("&");
            assert(self@.params.take(0) =~= Seq::<ParamModel>::empty());
        }
        let mut out = String::new();
        let n = self.params.len();
        let mut i: usize = 0;
        while i < n
            invariant
                i <= n,
                n == self.params.len(),
                out@ == query_of(self@.params.take(i as int)),
            decreases n - i,
        {
            proof {
                reveal_strlit("&");
                assert(self@.params.take(i + 1).drop_last() =~= self@.params.take(i as int));
                assert(self@.params.take(i + 1).last() == self@.params[i as int]);
                assert("&"@ =~= seq!['&']);
            }
            let p = &self.params[i];
            if !p.is_unset() {
                if !out.as_str().is_empty() {
                    out.append("&");
                }
                let enc = p.to_string();
                out.append(enc.as_str());
            }
            i += 1;
        }
        proof {
            assert(self@.params.take(n as int) =~= self@.params);
        }
        out
    }
}

/// Law (omission rule): a module none of whose parameter values is set
/// produces an empty query string.
pub proof fn lemma_all_unset_query_empty(params: Seq<ParamModel>)
    requires
        forall|i: int| 0 <= i < params.len() ==> (#[trigger] params[i]).value.len() == 0,
    ensures
        query_of(params) == Seq::<char>::empty(),
    decreases params.len(),
{
    if params.len() > 0 {
        lemma_all_unset_query_empty(params.drop_last());
    }
    assert(query_of(params) =~= Seq::<char>::empty());
}

/// Law (idempotence): the query string is a function of the module's state
/// alone; two builds without intervening mutation yield identical output.
pub proof fn lemma_query_string_idempotent(m: ApiModel, r1: Seq<char>, r2: Seq<char>)
    requires
        r1 == query_of(m.params),
        r2 == query_of(m.params),
    ensures
        r1 == r2,
{
}

} // verus!
