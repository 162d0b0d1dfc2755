//! The artifact compiler: turns one gap into a script or an agent specification by asking the LLM.
use vstd::prelude::*;
use vstd::string::*;
use crate::error::{MossError, ProviderError};
use crate::moss::orchestrator::{reply_json, reply_json_text};
use crate::moss::prompts::COMPILER_PROMPT;
use crate::moss::template::{render_template, rendered, vars_view};
use crate::moss::types::{Gap, GapView};
use crate::providers::{Message, Provider, Role};
use crate::text::{decimal, join, join_strings, lemma_texts_push, push_decimal, texts};

verus! {

/// How a gap is to be resolved: by a one-shot script or by an interactive agent.
#[derive(Clone, Copy, PartialEq, Eq, Structural, Debug)]
pub enum GapType {
    Proactive,
    Reactive,
}

/// The compiled output for a single gap, ready to be run.
pub enum Artifact {
    Script { language: String, code: String, timeout_secs: u64 },
    Agent { role: String, goal: String, tools: Vec<String>, instructions: String },
}

pub open spec fn gap_type_text(t: GapType) -> Seq<char> {
    match t {
        GapType::Proactive => "PROACTIVE"@,
        GapType::Reactive => "REACTIVE"@,
    }
}

/// The label of a gap type in the prompt.
pub fn gap_type_label(t: GapType) -> (r: &'static str)
    ensures
        r@ == gap_type_text(t),
{
    match t {
        GapType::Proactive => "PROACTIVE",
        GapType::Reactive => "REACTIVE",
    }
}

/// The prior errors numbered from 1: "1. first", "2. second", ...
pub open spec fn numbered(prior: Seq<Seq<char>>) -> Seq<Seq<char>> {
    Seq::new(prior.len(), |i: int| decimal((i + 1) as nat) + ". "@ + prior[i])
}

/// The prior-attempts text: "None", or the numbered errors one per line.
pub open spec fn prior_attempts_text(prior: Seq<Seq<char>>) -> Seq<char> {
    if prior.len() == 0 {
        "None"@
    } else {
        join(numbered(prior), "\n"@)
    }
}

/// The prior-attempts text for the prompt.
pub fn prior_attempts(prior: &Vec<String>) -> (r: String)
    requires
        prior@.len() < u64::MAX,
    ensures
        r@ == prior_attempts_text(texts(prior@)),
{
    if prior.len() == 0 {
        return String::from_str("None");
    }
    let mut lines: Vec<String> = Vec::new();
    let n = prior.len();
    for i in 0..n
        invariant
            n == prior@.len(),
            n < u64::MAX,
            texts(lines@) == numbered(texts(prior@)).take(i as int),
    {
        let mut line = String::new();
        push_decimal(&mut line, (i + 1) as u64);
        line.append(". ");
        line.append(prior[i].as_str());
        let ghost before = lines@;
        lines.push(line);
        proof {
            lemma_texts_push(before, lines@.last());
            assert(lines@ == before.push(lines@.last()));
            assert(numbered(texts(prior@)).take(i + 1) =~= numbered(texts(prior@)).take(i as int).push(
                lines@.last()@,
            ));
        }
    }
    assert(numbered(texts(prior@)).take(n as int) == numbered(texts(prior@)));
    join_strings(&lines, "\n")
}

/// The variables of the compiler prompt.
pub open spec fn compiler_vars(
    name: Seq<char>,
    description: Seq<char>,
    t: GapType,
    prior: Seq<Seq<char>>,
) -> Seq<(Seq<char>, Option<Seq<char>>)> {
    seq![
        ("gap_name"@, Some(name)),
        ("gap_description"@, Some(description)),
        ("gap_type"@, Some(gap_type_text(t))),
        ("prior_attempts"@, Some(prior_attempts_text(prior))),
    ]
}

/// Asks the LLM for the artifact of a gap.
pub struct Compiler<P: Provider> {
    pub provider: P,
}

impl<P: Provider> Compiler<P> {
    pub fn new(provider: P) -> (c: Compiler<P>)
        ensures
            c.provider == provider,
    {
        Compiler { provider }
    }

    /// The prompt asking for the artifact of `gap`, given the errors of earlier attempts.
    pub fn prompt(&self, gap: &Gap, gap_type: GapType, prior: &Vec<String>) -> (r: Result<String, MossError>)
        requires
            prior@.len() < u64::MAX,
        ensures
            r matches Ok(t) ==> rendered(
                "compiler"@,
                COMPILER_PROMPT@,
                compiler_vars(gap@.name, gap@.description, gap_type, texts(prior@)),
                "gap"@,
                Seq::empty(),
            ) == Ok::<Seq<char>, Seq<char>>(t@),
            r matches Err(e) ==> exists|msg: Seq<char>|
                rendered(
                    "compiler"@,
                    COMPILER_PROMPT@,
                    compiler_vars(gap@.name, gap@.description, gap_type, texts(prior@)),
                    "gap"@,
                    Seq::empty(),
                ) == Err::<Seq<char>, Seq<char>>(msg) && (e matches MossError::Blackboard(m) && m@
                    == "template render error: "@ + msg),
    {
        let mut vars: Vec<(String, Option<String>)> = Vec::new();
        vars.push((String::from_str("gap_name"), Some(gap.name.clone())));
        vars.push((String::from_str("gap_description"), Some(gap.description.clone())));
        vars.push((String::from_str("gap_type"), Some(String::from_str(gap_type_label(gap_type)))));
        vars.push((String::from_str("prior_attempts"), Some(prior_attempts(prior))));
        let group: Vec<(String, Option<String>)> = Vec::new();
        assert(vars_view(vars@) =~= compiler_vars(
            gap@.name,
            gap@.description,
            gap_type,
            texts(prior@),
        ));
        assert(vars_view(group@) =~= Seq::empty());
        match render_template("compiler", COMPILER_PROMPT, &vars, "gap", &group) {
            Ok(t) => Ok(t),
            Err(e) => {
                let mut m = String::from_str("template render error: ");
                m.append(e.as_str());
                Err(MossError::Blackboard(m))
            },
        }
    }

    /// The request for the artifact of `gap`: the rendered prompt as the one user message.
    pub fn compile_request(&self, gap: &Gap, gap_type: GapType, prior: &Vec<String>) -> (r: Result<
        Vec<Message>,
        MossError,
    >)
        requires
            prior@.len() < u64::MAX,
        ensures
            ({
                let p = compiler_prompt(gap@, gap_type, texts(prior@));
                &&& p matches Ok(t) ==> r matches Ok(m) && m@.len() == 1 && m@[0].role == Role::User
                    && m@[0].content@ == t
                &&& p matches Err(msg) ==> r matches Err(MossError::Blackboard(e)) && e@
                    == "template render error: "@ + msg
            }),
    {
        let prompt = match self.prompt(gap, gap_type, prior) {
            Ok(p) => p,
            Err(e) => {
                return Err(e);
            },
        };
        let mut messages: Vec<Message> = Vec::new();
        messages.push(Message { role: Role::User, content: prompt });
        Ok(messages)
    }

    /// Sends the artifact request for `gap` (see `compile_request`) to the provider and returns
    /// the JSON text of its reply (fences removed). A rendering error stops before the provider
    /// is asked; otherwise the result is the reply's JSON text or the provider's error.
    pub fn compile_text(&self, gap: &Gap, gap_type: GapType, prior: &Vec<String>) -> (r: Result<
        String,
        MossError,
    >)
        requires
            prior@.len() < u64::MAX,
        ensures
            ({
                let p = compiler_prompt(gap@, gap_type, texts(prior@));
                &&& p matches Err(msg) ==> r matches Err(MossError::Blackboard(m)) && m@
                    == "template render error: "@ + msg
                &&& p is Ok ==> (r matches Err(MossError::Provider(_)) || (r matches Ok(t)
                    && exists|raw: Seq<char>| #[trigger] reply_json(raw) == t@))
            }),
    {
        let messages = match self.compile_request(gap, gap_type, prior) {
            Ok(m) => m,
            Err(e) => {
                return Err(e);
            },
        };
        artifact_text(self.provider.complete_chat(messages))
    }
}

/// The rendered artifact prompt for a gap, or the render error's text.
pub open spec fn compiler_prompt(gap: GapView, gap_type: GapType, prior: Seq<Seq<char>>) -> Result<
    Seq<char>,
    Seq<char>,
> {
    rendered(
        "compiler"@,
        COMPILER_PROMPT@,
        compiler_vars(gap.name, gap.description, gap_type, prior),
        "gap"@,
        Seq::empty(),
    )
}

/// What the compiler makes of the provider's reply: the JSON text inside it, or the provider's
/// error.
pub fn artifact_text(reply: Result<String, ProviderError>) -> (r: Result<String, MossError>)
    ensures
        match reply {
            Ok(raw) => r matches Ok(t) && t@ == reply_json(raw@),
            Err(e) => r == Err::<String, MossError>(MossError::Provider(e)),
        },
{
    match reply {
        Ok(raw) => Ok(reply_json_text(raw.as_str())),
        Err(e) => Err(MossError::Provider(e)),
    }
}

} // verus!
