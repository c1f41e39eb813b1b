//! The reference catalog of module configurations.

use vstd::prelude::*;
use vstd::string::StringExecFns;
use crate::module::{ApiConfig, ConfigModel, config_inv, distinct_names};
use crate::registry::config_names;

verus! {

broadcast use vstd::string::group_string_axioms;

/// The reference catalog as a mathematical value: four modules, each with
/// its path segment and declared parameter names.
pub open spec fn reference_catalog() -> Seq<ConfigModel> {
    seq![
        ConfigModel { name: "Dad Jokes"@, path: "dadjokes"@, parameter_names: seq!["limit"@] },
        ConfigModel {
            name: "Historical Events"@,
            path: "historicalevents"@,
            parameter_names: seq!["text"@, "year"@, "month"@, "day"@],
        },
        ConfigModel {
            name: "Chuck Norris"@,
            path: "chucknorris"@,
            parameter_names: Seq::<Seq<char>>::empty(),
        },
        ConfigModel {
            name: "Password Generator"@,
            path: "password"@,
            parameter_names: seq!["length"@],
        },
    ]
}

/// Builds the reference catalog: four well-formed configurations with
/// pairwise distinct module names, in the order of [`reference_catalog`].
pub fn generate_api_configurations() -> (r: Vec<ApiConfig>)
    ensures
        r.deep_view() == reference_catalog(),
        forall|i: int| 0 <= i < r.deep_view().len() ==> config_inv(#[trigger] r.deep_view()[i]),
        distinct_names(config_names(r.deep_view())),
{
    proof {
        reveal_strlit("Dad Jokes");
        reveal_strlit("dadjokes");
        reveal_strlit("limit");
        reveal_strlit("Historical Events");
        reveal_strlit("historicalevents");
        reveal_strlit("text");
        reveal_strlit("year");
        reveal_strlit("month");
        reveal_strlit("day");
        reveal_strlit("Chuck Norris");
        reveal_strlit("chucknorris");
        reveal_strlit("Password Generator");
        reveal_strlit("password");
    }
    let mut dad_params: Vec<String> = Vec::new();
    dad_params.push(String::from_str("limit"));
    let mut hist_params: Vec<String> = Vec::new();
    hist_params.push(String::from_str("text"));
    hist_params.push(String::from_str("year"));
    hist_params.push(String::from_str("month"));
    hist_params.push(String::from_str("day"));
    let chuck_params: Vec<String> = Vec::new();
    let mut pass_params: Vec<String> = Vec::new();
    pass_params.push(String::from_str("length"));

    let mut r: Vec<ApiConfig> = Vec::new();
    r.push(ApiConfig::new(
        String::from_str("Dad Jokes"),
        String::from_str("dadjokes"),
        dad_params,
    ));
    r.push(ApiConfig::new(
        String::from_str("Historical Events"),
        String::from_str("historicalevents"),
        hist_params,
    ));
    r.push(ApiConfig::new(
        String::from_str("Chuck Norris"),
        String::from_str("chucknorris"),
        chuck_params,
    ));
    r.push(ApiConfig::new(
        String::from_str("Password Generator"),
        String::from_str("password"),
        pass_params,
    ));
    proof {
        reveal_strlit("length");
        let cat = reference_catalog();
        assert(r.deep_view().len() == 4);
        assert(r.deep_view()[0].parameter_names =~= cat[0].parameter_names);
        assert(r.deep_view()[1].parameter_names =~= cat[1].parameter_names);
        assert(r.deep_view()[2].parameter_names =~= cat[2].parameter_names);
        assert(r.deep_view()[3].parameter_names =~= cat[3].parameter_names);
        assert(r.deep_view()[0] =~= cat[0]);
        assert(r.deep_view()[1] =~= cat[1]);
        assert(r.deep_view()[2] =~= cat[2]);
        assert(r.deep_view()[3] =~= cat[3]);
        assert(r.deep_view() =~= cat);
        assert("text"@ != "year"@) by {
            assert("text"@[0] == 't');
            assert("year"@[0] == 'y');
        }
        assert(config_inv(cat[0])) by {
            let pn = cat[0].parameter_names;
            assert forall|t: int| 0 <= t < pn.len() implies pn[t].len() > 0 by {
                assert(pn[t] == "limit"@);
            }
            assert(distinct_names(pn));
        }
        assert(config_inv(cat[1])) by {
            let pn = cat[1].parameter_names;
            assert(pn[0] == "text"@);
            assert(pn[1] == "year"@);
            assert(pn[2] == "month"@);
            assert(pn[3] == "day"@);
            assert forall|t: int| 0 <= t < pn.len() implies pn[t].len() > 0 by {
                assert(pn[t] == pn[0] || pn[t] == pn[1] || pn[t] == pn[2] || pn[t] == pn[3]);
            }
            assert forall|a: int, b: int|
                #![trigger pn[a], pn[b]]
                0 <= a < b < pn.len() implies pn[a] != pn[b] by {
                assert(b == 1 || b == 2 || b == 3);
                assert(pn[0].len() == 4 && pn[1].len() == 4 && pn[2].len() == 5 && pn[3].len()
                    == 3);
            }
            assert(distinct_names(pn));
        }
        assert(config_inv(cat[2])) by {
            let pn = cat[2].parameter_names;
            assert(pn.len() == 0);
            assert(distinct_names(pn));
        }
        assert(config_inv(cat[3])) by {
            let pn = cat[3].parameter_names;
            assert forall|t: int| 0 <= t < pn.len() implies pn[t].len() > 0 by {
                assert(pn[t] == "length"@);
            }
            assert(distinct_names(pn));
        }
        assert forall|i: int| 0 <= i < cat.len() implies config_inv(#[trigger] cat[i]) by {
            assert(i == 0 || i == 1 || i == 2 || i == 3);
        }
        let names = config_names(cat);
        assert(names[0] == "Dad Jokes"@);
        assert(names[1] == "Historical Events"@);
        assert(names[2] == "Chuck Norris"@);
        assert(names[3] == "Password Generator"@);
        assert(distinct_names(names));
    }
    r
}

} // verus!
