//! The registry: owner of the credentials and the full set of API modules.
//!
//! The registry resolves a module by name, binds parameter values, and
//! assembles the full request URL. Issuing the request over a transport and
//! sourcing the credentials are the embedding application's concern; the
//! application attaches the API key as an authentication header (never
//! embedded in the URL) and classifies the response with
//! [`classify_status`].

use vstd::prelude::*;
use vstd::string::StringExecFns;
use crate::error::ApiError;
use crate::module::{
    Api, ApiConfig, ApiModel, ConfigModel, api_inv, config_inv, distinct_names, has_param,
    lemma_all_unset_query_empty, module_of, query_of, with_param_set,
};
use crate::param::ParamModel;

verus! {

broadcast use vstd::string::group_string_axioms;

/// Mathematical model of a [`NinjaAPI`] registry.
#[verifier::ext_equal]
pub struct RegistryModel {
    pub base_url: Seq<char>,
    pub api_key: Seq<char>,
    pub modules: Seq<ApiModel>,
}

/// The names of a sequence of modules, in order.
pub open spec fn module_names(mods: Seq<ApiModel>) -> Seq<Seq<char>> {
    mods.map_values(|m: ApiModel| m.name)
}

/// The names of a sequence of configurations, in order.
pub open spec fn config_names(cs: Seq<ConfigModel>) -> Seq<Seq<char>> {
    cs.map_values(|c: ConfigModel| c.name)
}

/// The freshly built modules for a catalog, one per configuration, in order.
pub open spec fn modules_of(cs: Seq<ConfigModel>) -> Seq<ApiModel> {
    cs.map_values(|c: ConfigModel| module_of(c))
}

/// The invariant of a registry: non-empty credentials, well-formed modules,
/// unique module names.
pub open spec fn registry_inv(r: RegistryModel) -> bool {
    &&& r.base_url.len() > 0
    &&& r.api_key.len() > 0
    &&& forall|i: int| 0 <= i < r.modules.len() ==> api_inv(#[trigger] r.modules[i])
    &&& distinct_names(module_names(r.modules))
}

/// True when some module in `mods` is named `name`.
pub open spec fn has_module(mods: Seq<ApiModel>, name: Seq<char>) -> bool {
    exists|i: int| 0 <= i < mods.len() && mods[i].name == name
}

/// The module in `mods` named `name` (well-defined when module names are
/// unique and `has_module` holds).
pub open spec fn module_named(mods: Seq<ApiModel>, name: Seq<char>) -> ApiModel {
    mods[choose|i: int| 0 <= i < mods.len() && mods[i].name == name]
}

/// The registry after binding `value` to parameter `pname` of every module
/// named `mname` (under the invariant there is at most one).
pub open spec fn with_module_param_set(
    r: RegistryModel,
    mname: Seq<char>,
    pname: Seq<char>,
    value: Seq<char>,
) -> RegistryModel {
    RegistryModel {
        modules: Seq::new(
            r.modules.len(),
            |i: int|
                if r.modules[i].name == mname {
                    with_param_set(r.modules[i], pname, value)
                } else {
                    r.modules[i]
                },
        ),
        ..r
    }
}

/// The full request URL for a base URL, a path segment, and a query string:
/// `base/path`, with `?query` appended only when the query is non-empty.
pub open spec fn url_of(base: Seq<char>, path: Seq<char>, qs: Seq<char>) -> Seq<char> {
    if qs.len() == 0 {
        base + seq!['/'] + path
    } else {
        base + seq!['/'] + path + seq!['?'] + qs
    }
}

/// Owner of the base URL, the API key, and the collection of modules; the
/// one place that resolves module names and assembles request URLs.
#[derive(Debug)]
pub struct NinjaAPI {
    base_url: String,
    api_key: String,
    modules: Vec<Api>,
}

impl View for NinjaAPI {
    type V = RegistryModel;

    closed spec fn view(&self) -> RegistryModel {
        RegistryModel {
            base_url: self.base_url@,
            api_key: self.api_key@,
            modules: self.modules.deep_view(),
        }
    }
}

impl NinjaAPI {
    /// Well-formedness: the registry's model satisfies [`registry_inv`].
    pub open spec fn wf(&self) -> bool {
        registry_inv(self@)
    }

    /// Builds a registry from externally supplied credentials and a catalog.
    ///
    /// Fails with `MissingCredential` — before any module is built — when
    /// the base URL or the API key is empty, and with `DuplicateModuleName`
    /// when two configurations share a name. On success the registry holds
    /// one freshly built module per configuration, in catalog order.
    pub fn new(base_url: &str, api_key: &str, configs: Vec<ApiConfig>) -> (r: Result<
        NinjaAPI,
        ApiError,
    >)
        requires
            forall|i: int|
                0 <= i < configs.deep_view().len() ==> config_inv(#[trigger] configs.deep_view()[i]),
        ensures
            r is Ok <==> base_url@.len() > 0 && api_key@.len() > 0 && distinct_names(
                config_names(configs.deep_view()),
            ),
            r == Err::<NinjaAPI, ApiError>(ApiError::MissingCredential) <==> (base_url@.len() == 0
                || api_key@.len() == 0),
            r == Err::<NinjaAPI, ApiError>(ApiError::DuplicateModuleName) <==> (base_url@.len() > 0
                && api_key@.len() > 0 && !distinct_names(config_names(configs.deep_view()))),
            r is Ok ==> (r->Ok_0)@ == (RegistryModel {
                base_url: base_url@,
                api_key: api_key@,
                modules: modules_of(configs.deep_view()),
            }) && (r->Ok_0).wf(),
    {
        if base_url.is_empty() || api_key.is_empty() {
            return Err(ApiError::MissingCredential);
        }
        let modules = match NinjaAPI::build_modules(configs) {
            Ok(m) => m,
            Err(e) => {
                return Err(e);
            },
        };
        let r = NinjaAPI { base_url: base_url.to_owned(), api_key: api_key.to_owned(), modules };
        proof {
            assert(r@ =~= (RegistryModel {
                base_url: base_url@,
                api_key: api_key@,
                modules: modules_of(configs.deep_view()),
            }));
            let cs = configs.deep_view();
            assert(module_names(r@.modules) =~= config_names(cs)) by {
                assert forall|i: int| 0 <= i < r@.modules.len() implies module_names(r@.modules)[i]
                    == config_names(cs)[i] by {
                    assert(r@.modules[i] == module_of(cs[i]));
                }
            }
        }
        Ok(r)
    }

    /// Builds one module per configuration, in order; fails with
    /// `DuplicateModuleName` when two configurations share a name.
    fn build_modules(configs: Vec<ApiConfig>) -> (r: Result<Vec<Api>, ApiError>)
        requires
            forall|i: int|
                0 <= i < configs.deep_view().len() ==> config_inv(#[trigger] configs.deep_view()[i]),
        ensures
            r is Ok <==> distinct_names(config_names(configs.deep_view())),
            r is Ok ==> (r->Ok_0).deep_view() == modules_of(configs.deep_view()),
            r is Ok ==> forall|i: int|
                0 <= i < (r->Ok_0).deep_view().len() ==> api_inv(
                    #[trigger] (r->Ok_0).deep_view()[i],
                ),
            r is Err ==> r == Err::<Vec<Api>, ApiError>(ApiError::DuplicateModuleName),
    {
        let ghost all = configs.deep_view();
        let mut remaining = configs;
        let mut modules: Vec<Api> = Vec::new();
        let ghost mut k: int = 0;
        let ghost total = all.len();
        while remaining.len() > 0
            invariant
                all == configs.deep_view(),
                0 <= k,
                k + remaining@.len() == total,
                total == all.len(),
                forall|i: int| 0 <= i < all.len() ==> config_inv(#[trigger] all[i]),
                remaining.deep_view() =~= all.skip(k),
                modules.deep_view() =~= modules_of(all.take(k)),
                forall|t: int|
                    0 <= t < modules.deep_view().len() ==> api_inv(
                        #[trigger] modules.deep_view()[t],
                    ),
                distinct_names(config_names(all.take(k))),
            decreases remaining@.len(),
        {
            let c = remaining.remove(0);
            proof {
                assert(remaining.deep_view().len() == all.skip(k).len() - 1);
                assert(remaining.deep_view() =~= all.skip(k + 1)) by {
                    assert forall|j: int| 0 <= j < remaining.deep_view().len() implies remaining.deep_view()[j]
                        == all.skip(k + 1)[j] by {
                        assert(remaining.deep_view()[j] == all.skip(k)[j + 1]);
                    }
                }
                assert(c.deep_view() == all.skip(k)[0]);
                assert(c.deep_view() == all[k]);
                assert(config_inv(c@));
                assert(modules.deep_view().len() == k);
            }
            // reject a configuration whose name an earlier module already uses
            let mut j: usize = 0;
            let n = modules.len();
            proof {
                assert(n == k);
            }
            while j < n
                invariant
                    all == configs.deep_view(),
                    j <= n,
                    n == modules.len(),
                    n == k,
                    modules.deep_view() =~= modules_of(all.take(k)),
                    0 <= k < all.len(),
                    c.deep_view() == all[k],
                    forall|t: int| 0 <= t < j ==> modules.deep_view()[t].name != c@.name,
                decreases n - j,
            {
                if modules[j].has_name(&c.name) {
                    proof {
                        assert(modules.deep_view()[j as int].name == c@.name);
                        assert(modules.deep_view()[j as int] == module_of(all.take(k)[j as int]));
                        assert(all.take(k)[j as int] == all[j as int]);
                        assert(config_names(all)[j as int] == all[j as int].name);
                        assert(config_names(all)[k] == all[k].name);
                        assert(config_names(all)[j as int] == config_names(all)[k]);
                        assert(k < config_names(all).len());
                        assert(!distinct_names(config_names(all)));
                    }
                    return Err(ApiError::DuplicateModuleName);
                }
                j += 1;
            }
            proof {
                let names1 = config_names(all.take(k + 1));
                let names0 = config_names(all.take(k));
                assert forall|a: int, b: int|
                    #![trigger names1[a], names1[b]]
                    0 <= a < b < names1.len() implies names1[a] != names1[b] by {
                    assert(names1[a] == all[a].name);
                    assert(names1[b] == all[b].name);
                    if b < k {
                        assert(names0[a] == all[a].name);
                        assert(names0[b] == all[b].name);
                    } else {
                        assert(modules.deep_view()[a].name == module_of(all.take(k)[a]).name);
                        assert(all.take(k)[a] == all[a]);
                        assert(modules.deep_view()[a].name != c@.name);
                    }
                }
                assert(distinct_names(names1));
            }
            let ghost prev = modules.deep_view();
            let built = Api::new(c);
            proof {
                assert(api_inv(built@));
            }
            modules.push(built);
            proof {
                assert(modules.deep_view() =~= prev.push(module_of(all[k])));
                assert(modules.deep_view() =~= modules_of(all.take(k + 1))) by {
                    assert(all.take(k + 1).drop_last() =~= all.take(k));
                    assert forall|t: int| 0 <= t < k + 1 implies modules.deep_view()[t]
                        == modules_of(all.take(k + 1))[t] by {
                        assert(all.take(k + 1)[t] == all[t]);
                        if t < k {
                            assert(prev[t] == module_of(all.take(k)[t]));
                            assert(all.take(k)[t] == all[t]);
                        }
                    }
                }
                k = k + 1;
            }
        }
        proof {
            assert(all.take(k) =~= all);
        }
        Ok(modules)
    }

    /// The registry's base URL.
    pub fn base_url(&self) -> (r: &String)
        ensures
            r@ == self@.base_url,
    {
        &self.base_url
    }

    /// The registry's API key, for the transport layer to attach as an
    /// authentication header (never embedded in a URL).
    pub fn api_key(&self) -> (r: &String)
        ensures
            r@ == self@.api_key,
    {
        &self.api_key
    }

    /// Resolves a module by exact, case-sensitive name match; fails with
    /// `ModuleNotFound` when no module carries the name.
    pub fn find_module(&self, name: &str) -> (r: Result<&Api, ApiError>)
        requires
            self.wf(),
        ensures
            r is Ok <==> has_module(self@.modules, name@),
            r is Ok ==> (r->Ok_0)@ == module_named(self@.modules, name@) && (r->Ok_0)@.name
                == name@ && (r->Ok_0).wf(),
            r is Err ==> r == Err::<&Api, ApiError>(ApiError::ModuleNotFound),
    {
        let key: String = name.to_owned();
        let n = self.modules.len();
        let mut i: usize = 0;
        while i < n
            invariant
                i <= n,
                n == self.modules.len(),
                self.wf(),
                key@ == name@,
                forall|j: int| 0 <= j < i ==> self@.modules[j].name != name@,
            decreases n - i,
        {
            if self.modules[i].has_name(&key) {
                proof {
                    let mods = self@.modules;
                    assert(self.modules[i as int].deep_view() == mods[i as int]);
                    assert(has_module(mods, name@));
                    let w = choose|w: int| 0 <= w < mods.len() && mods[w].name == name@;
                    if w != i as int {
                        assert(module_names(mods)[w] == mods[w].name);
                        assert(module_names(mods)[i as int] == mods[i as int].name);
                        assert(false);
                    }
                }
                return Ok(&self.modules[i]);
            }
            i += 1;
        }
        Err(ApiError::ModuleNotFound)
    }

    /// Resolves the module named `module_name`, then binds `value` to its
    /// parameter named `param_name`; propagates `ModuleNotFound` or
    /// `UnknownParameter` unchanged, leaving every module as it was.
    pub fn set_parameter(&mut self, module_name: &str, param_name: &str, value: &str) -> (r: Result<
        (),
        ApiError,
    >)
        requires
            old(self).wf(),
        ensures
            final(self).wf(),
            r is Ok <==> has_module(old(self)@.modules, module_name@) && has_param(
                module_named(old(self)@.modules, module_name@),
                param_name@,
            ),
            r is Ok ==> final(self)@ == with_module_param_set(
                old(self)@,
                module_name@,
                param_name@,
                value@,
            ),
            r is Err ==> final(self)@ == old(self)@,
            r == Err::<(), ApiError>(ApiError::ModuleNotFound) <==> !has_module(
                old(self)@.modules,
                module_name@,
            ),
            r == Err::<(), ApiError>(ApiError::UnknownParameter) <==> has_module(
                old(self)@.modules,
                module_name@,
            ) && !has_param(module_named(old(self)@.modules, module_name@), param_name@),
    {
        let key: String = module_name.to_owned();
        let n = self.modules.len();
        let mut i: usize = 0;
        while i < n
            invariant
                i <= n,
                n == self.modules.len(),
                old(self).wf(),
                *self == *old(self),
                key@ == module_name@,
                forall|j: int| 0 <= j < i ==> old(self)@.modules[j].name != module_name@,
            decreases n - i,
        {
            if self.modules[i].has_name(&key) {
                proof {
                    let mods = old(self)@.modules;
                    assert(self.modules[i as int].deep_view() == mods[i as int]);
                    assert(mods[i as int].name == module_name@);
                    assert(has_module(mods, module_name@));
                    let w = choose|w: int| 0 <= w < mods.len() && mods[w].name == module_name@;
                    if w != i as int {
                        assert(module_names(mods)[w] == mods[w].name);
                        assert(module_names(mods)[i as int] == mods[i as int].name);
                        assert(false);
                    }
                    assert(module_named(mods, module_name@) == mods[i as int]);
                    assert(api_inv(mods[i as int]));
                }
                let m = &mut self.modules[i];
                let res = m.set_parameter(param_name, value);
                match res {
                    Ok(()) => {
                        proof {
                            let before = old(self)@;
                            let now = final(self)@;
                            let updated = with_module_param_set(
                                before,
                                module_name@,
                                param_name@,
                                value@,
                            );
                            assert forall|t: int| 0 <= t < updated.modules.len() implies now.modules[t]
                                == updated.modules[t] by {
                                if t != i as int {
                                    assert(module_names(before.modules)[t]
                                        == before.modules[t].name);
                                    assert(module_names(before.modules)[i as int]
                                        == before.modules[i as int].name);
                                    assert(before.modules[t].name != module_name@);
                                }
                            }
                            assert(now.modules =~= updated.modules);
                            assert(now =~= updated);
                            assert(module_names(now.modules) =~= module_names(before.modules));
                            assert(forall|t: int|
                                0 <= t < now.modules.len() ==> api_inv(#[trigger] now.modules[t]));
                        }
                        return Ok(());
                    },
                    Err(e) => {
                        proof {
                            assert(final(self)@.modules =~= old(self)@.modules);
                            assert(final(self)@ =~= old(self)@);
                        }
                        return Err(e);
                    },
                }
            }
            i += 1;
        }
        Err(ApiError::ModuleNotFound)
    }

    /// Assembles the full request URL for the named module from the base
    /// URL, the module's path, and its current query string; fails with
    /// `ModuleNotFound` when no module carries the name. A module with no
    /// set parameters yields a URL with no `?` suffix.
    pub fn build_request_url(&self, module_name: &str) -> (r: Result<String, ApiError>)
        requires
            self.wf(),
        ensures
            r is Ok <==> has_module(self@.modules, module_name@),
            r is Ok ==> (r->Ok_0)@ == url_of(
                self@.base_url,
                module_named(self@.modules, module_name@).path,
                query_of(module_named(self@.modules, module_name@).params),
            ),
            r is Err ==> r == Err::<String, ApiError>(ApiError::ModuleNotFound),
    {
        let m = match self.find_module(module_name) {
            Ok(m) => m,
            Err(e) => {
                return Err(e);
            },
        };
        proof {
            reveal_strlit("/");
            reveal_strlit("?");
            assert("/"@ =~= seq!['/']);
            assert("?"@ =~= seq!['?']);
        }
        let qs = m.build_query_string();
        let mut url = self.base_url.clone();
        url.append("/");
        url.append(m.path().as_str());
        if !qs.as_str().is_empty() {
            url.append("?");
            url.append(qs.as_str());
        }
        proof {
            assert(url@ =~= url_of(
                self@.base_url,
                module_named(self@.modules, module_name@).path,
                query_of(module_named(self@.modules, module_name@).params),
            ));
        }
        Ok(url)
    }
}

/// Distinguishes success responses from HTTP errors, as the transport layer
/// must once a response arrives: a 2xx status is returned unchanged, any
/// other status becomes `HttpError` carrying that status.
pub fn classify_status(status: u16) -> (r: Result<u16, ApiError>)
    ensures
        200 <= status < 300 ==> r == Ok::<u16, ApiError>(status),
        !(200 <= status < 300) ==> r == Err::<u16, ApiError>(ApiError::HttpError(status)),
{
    if 200 <= status && status < 300 {
        Ok(status)
    } else {
        Err(ApiError::HttpError(status))
    }
}

/// Law (omission rule, URL form): a module none of whose parameter values
/// is set yields a request URL that is exactly `base/path`, with no `?`
/// suffix.
pub proof fn lemma_all_unset_url_plain(base: Seq<char>, path: Seq<char>, params: Seq<ParamModel>)
    requires
        forall|i: int| 0 <= i < params.len() ==> (#[trigger] params[i]).value.len() == 0,
    ensures
        url_of(base, path, query_of(params)) == base + seq!['/'] + path,
{
    lemma_all_unset_query_empty(params);
}

/// Law: for every catalog of well-formed configurations with unique names,
/// every configured name resolves, after construction, to exactly the
/// freshly built module of its configuration. (That construction itself
/// succeeds on such a catalog, given non-empty credentials, is stated by
/// `NinjaAPI::new`.)
pub proof fn lemma_unique_catalog_resolves(configs: Seq<ConfigModel>, k: int)
    requires
        distinct_names(config_names(configs)),
        0 <= k < configs.len(),
    ensures
        has_module(modules_of(configs), configs[k].name),
        module_named(modules_of(configs), configs[k].name) == module_of(configs[k]),
{
    let mods = modules_of(configs);
    assert(mods[k] == module_of(configs[k]));
    assert(mods[k].name == configs[k].name);
    assert(has_module(mods, configs[k].name));
    let w = choose|w: int| 0 <= w < mods.len() && mods[w].name == configs[k].name;
    if w != k {
        assert(config_names(configs)[w] == configs[w].name);
        assert(config_names(configs)[k] == configs[k].name);
        assert(false);
    }
}

} // verus!
