//! Rendering of the prompt templates.
use vstd::prelude::*;

verus! {

/// A template variable: a name and an optional text value (`None` renders as none).
pub open spec fn vars_view(v: Seq<(String, Option<String>)>) -> Seq<(Seq<char>, Option<Seq<char>>)> {
    v.map_values(|p: (String, Option<String>)| (p.0@, match p.1 {
        Some(t) => Some(t@),
        None => None,
    }))
}

/// What `minijinja::Environment::render_named_str` gives for template `source` registered
/// under `name`, with a context of the top-level variables `vars` and one nested object
/// `group_name` holding the variables `group`: the rendered text, or the error's message.
pub uninterp spec fn rendered(
    name: Seq<char>,
    source: Seq<char>,
    vars: Seq<(Seq<char>, Option<Seq<char>>)>,
    group_name: Seq<char>,
    group: Seq<(Seq<char>, Option<Seq<char>>)>,
) -> Result<Seq<char>, Seq<char>>;

/// Calls `minijinja::Environment::new().render_named_str(name, source, ctx)`, where `ctx` is a
/// map of the variables `vars` plus `group_name` mapped to a map of the variables `group`.
/// The result is named by `rendered`: the rendering depends on its arguments alone.
#[verifier::external_body]
pub(crate) fn render_template(
    name: &str,
    source: &str,
    vars: &Vec<(String, Option<String>)>,
    group_name: &str,
    group: &Vec<(String, Option<String>)>,
) -> (r: Result<String, String>)
    ensures
        match r {
            Ok(t) => rendered(name@, source@, vars_view(vars@), group_name@, vars_view(group@)) == Ok::<
                Seq<char>,
                Seq<char>,
            >(t@),
            Err(e) => rendered(name@, source@, vars_view(vars@), group_name@, vars_view(group@))
                == Err::<Seq<char>, Seq<char>>(e@),
        },
{
    let inner: minijinja::Value = group.iter().map(|(k, v)| (k.clone(), v.clone())).collect();
    let ctx: minijinja::Value = vars.iter().map(|(k, v)| (k.clone(), minijinja::Value::from(v.clone()))).chain(
        std::iter::once((group_name.to_string(), inner)),
    ).collect();
    minijinja::Environment::new().render_named_str(name, source, ctx).map_err(|e| e.to_string())
}

} // verus!
