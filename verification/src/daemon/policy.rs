//! The policy a compression request runs under: parsed from the request,
//! completed from the configured model rules and the defaults.

use crate::config::{
    resolve_model_policy, policy_is, CompressionAggressiveness, ModelAutoConfig, ModelCategory,
    ModelOverride, ModelRuntimePolicy, PostExecutionPolicyMode,
};
use crate::text::{eq_str, from_chars, lower, lowercase, to_chars, trim, trim_of};
use vstd::prelude::*;

verus! {

/// The policy fields a request may set.
pub struct PolicyRequest {
    pub model_id: Option<String>,
    pub model_category: Option<String>,
    pub policy_mode: Option<String>,
    pub compression_aggressiveness: Option<String>,
    pub strip_reasoning: Option<bool>,
}

/// The policy a request runs under.
pub struct EffectiveModelPolicy {
    pub model_id: String,
    pub model_category: ModelCategory,
    pub policy_mode: PostExecutionPolicyMode,
    pub compression_aggressiveness: CompressionAggressiveness,
    pub strip_reasoning: bool,
}

/// The lowercase trimmed form of an optional field.
pub open spec fn normalized(raw: Option<Seq<char>>) -> Option<Seq<char>> {
    match raw {
        Some(s) => Some(lowercase(trim(s))),
        None => None,
    }
}

/// A model category named in a request.
pub open spec fn category_named(raw: Option<Seq<char>>) -> Option<ModelCategory> {
    match normalized(raw) {
        Some(l) => if l == "reasoning"@ {
            Some(ModelCategory::Reasoning)
        } else if l == "instruct"@ {
            Some(ModelCategory::Instruct)
        } else if l == "compact"@ {
            Some(ModelCategory::Compact)
        } else {
            None
        },
        None => None,
    }
}

/// A policy mode named in a request.
pub open spec fn mode_named(raw: Option<Seq<char>>) -> Option<PostExecutionPolicyMode> {
    match normalized(raw) {
        Some(l) => if l == "off"@ {
            Some(PostExecutionPolicyMode::Off)
        } else if l == "metadata_only"@ {
            Some(PostExecutionPolicyMode::MetadataOnly)
        } else if l == "replace"@ || l == "replace_output"@ {
            Some(PostExecutionPolicyMode::ReplaceOutput)
        } else {
            None
        },
        None => None,
    }
}

/// A compression aggressiveness named in a request.
pub open spec fn aggressiveness_named(raw: Option<Seq<char>>) -> Option<CompressionAggressiveness> {
    match normalized(raw) {
        Some(l) => if l == "low"@ {
            Some(CompressionAggressiveness::Low)
        } else if l == "medium"@ {
            Some(CompressionAggressiveness::Medium)
        } else if l == "high"@ {
            Some(CompressionAggressiveness::High)
        } else {
            None
        },
        None => None,
    }
}

fn normalized_exec(raw: Option<&str>) -> (r: Option<Vec<char>>)
    ensures
        crate::text::opt_chars(r) == normalized(
            match raw {
                Some(s) => Some(s@),
                None => None,
            },
        ),
{
    match raw {
        Some(s) => {
            let v = to_chars(s);
            let t = trim_of(&v);
            Some(lower(&t))
        },
        None => None,
    }
}

/// The model category a request names.
pub fn parse_model_category(raw: Option<&str>) -> (r: Option<ModelCategory>)
    ensures
        r == category_named(
            match raw {
                Some(s) => Some(s@),
                None => None,
            },
        ),
{
    match normalized_exec(raw) {
        Some(l) => {
            if eq_str(&l, "reasoning") {
                Some(ModelCategory::Reasoning)
            } else if eq_str(&l, "instruct") {
                Some(ModelCategory::Instruct)
            } else if eq_str(&l, "compact") {
                Some(ModelCategory::Compact)
            } else {
                None
            }
        },
        None => None,
    }
}

/// The policy mode a request names.
pub fn parse_policy_mode(raw: Option<&str>) -> (r: Option<PostExecutionPolicyMode>)
    ensures
        r == mode_named(
            match raw {
                Some(s) => Some(s@),
                None => None,
            },
        ),
{
    match normalized_exec(raw) {
        Some(l) => {
            if eq_str(&l, "off") {
                Some(PostExecutionPolicyMode::Off)
            } else if eq_str(&l, "metadata_only") {
                Some(PostExecutionPolicyMode::MetadataOnly)
            } else if eq_str(&l, "replace") || eq_str(&l, "replace_output") {
                Some(PostExecutionPolicyMode::ReplaceOutput)
            } else {
                None
            }
        },
        None => None,
    }
}

/// The compression aggressiveness a request names.
pub fn parse_aggressiveness(raw: Option<&str>) -> (r: Option<CompressionAggressiveness>)
    ensures
        r == aggressiveness_named(
            match raw {
                Some(s) => Some(s@),
                None => None,
            },
        ),
{
    match normalized_exec(raw) {
        Some(l) => {
            if eq_str(&l, "low") {
                Some(CompressionAggressiveness::Low)
            } else if eq_str(&l, "medium") {
                Some(CompressionAggressiveness::Medium)
            } else if eq_str(&l, "high") {
                Some(CompressionAggressiveness::High)
            } else {
                None
            }
        },
        None => None,
    }
}

/// The aggressiveness that suits a model category.
pub open spec fn category_aggressiveness(c: ModelCategory) -> CompressionAggressiveness {
    match c {
        ModelCategory::Reasoning => CompressionAggressiveness::Low,
        ModelCategory::Compact => CompressionAggressiveness::Medium,
        ModelCategory::Instruct => CompressionAggressiveness::High,
    }
}

/// The largest output, in bytes, sent to a model at an aggressiveness.
pub open spec fn max_output_size(a: CompressionAggressiveness) -> nat {
    match a {
        CompressionAggressiveness::Low => 2000000,
        CompressionAggressiveness::Medium => 1250000,
        CompressionAggressiveness::High => 800000,
    }
}

/// The largest output, in bytes, sent to a model at an aggressiveness.
pub fn max_output_size_bytes(a: CompressionAggressiveness) -> (r: usize)
    ensures
        r == max_output_size(a),
{
    match a {
        CompressionAggressiveness::Low => 2000000,
        CompressionAggressiveness::Medium => 1250000,
        CompressionAggressiveness::High => 800000,
    }
}

/// The model a request is for: its trimmed model id when not empty, else
/// the default model.
pub open spec fn requested_model(req: Option<Seq<char>>, default_model: Seq<char>) -> Seq<char> {
    match req {
        Some(m) => if trim(m).len() > 0 {
            trim(m)
        } else {
            default_model
        },
        None => default_model,
    }
}

/// `first`, else `second`'s value, else `d`.
pub open spec fn first_of<T>(first: Option<T>, second: Option<T>, d: T) -> T {
    match first {
        Some(v) => v,
        None => match second {
            Some(v) => v,
            None => d,
        },
    }
}

/// The policy a request runs under, given the policy the configured rules
/// give its model (`None` when automatic selection is off): each field as the
/// request names it, else as the rules give it, else its default.
pub open spec fn effective_is(
    p: EffectiveModelPolicy,
    req: PolicyRequest,
    default_model: Seq<char>,
    configured: Option<ModelRuntimePolicy>,
) -> bool {
    let cat = first_of(
        category_named(crate::text::opt_view(req.model_category)),
        match configured {
            Some(c) => Some(c.category),
            None => None,
        },
        ModelCategory::Instruct,
    );
    &&& p.model_id@ == requested_model(crate::text::opt_view(req.model_id), default_model)
    &&& p.model_category == cat
    &&& p.policy_mode == first_of(
        mode_named(crate::text::opt_view(req.policy_mode)),
        match configured {
            Some(c) => Some(c.policy_mode),
            None => None,
        },
        PostExecutionPolicyMode::MetadataOnly,
    )
    &&& p.compression_aggressiveness == first_of(
        aggressiveness_named(crate::text::opt_view(req.compression_aggressiveness)),
        match configured {
            Some(c) => Some(c.compression_aggressiveness),
            None => None,
        },
        category_aggressiveness(cat),
    )
    &&& p.strip_reasoning == first_of(
        req.strip_reasoning,
        match configured {
            Some(c) => Some(c.strip_reasoning),
            None => None,
        },
        true,
    )
}

/// The policy a request runs under, with the model rules of the
/// configuration.
pub fn resolve_effective_policy(
    req: &PolicyRequest,
    default_model: &str,
    auto: &ModelAutoConfig,
    rules: &Vec<ModelOverride>,
) -> (r: EffectiveModelPolicy)
    ensures
        exists|c: Option<ModelRuntimePolicy>|
            #![auto]
            effective_is(r, *req, default_model@, c) && match c {
                Some(p) => auto.enabled && policy_is(
                    p,
                    *auto,
                    rules@,
                    requested_model(crate::text::opt_view(req.model_id), default_model@),
                ),
                None => !auto.enabled,
            },
{
    let model_id: String = match &req.model_id {
        Some(m) => {
            let v = to_chars(m.as_str());
            let t = trim_of(&v);
            if t.len() > 0 {
                from_chars(&t)
            } else {
                String::from_str(default_model)
            }
        },
        None => String::from_str(default_model),
    };
    let configured = resolve_model_policy(auto, rules, model_id.as_str());
    let category = match parse_model_category(
        match &req.model_category {
            Some(s) => Some(s.as_str()),
            None => None,
        },
    ) {
        Some(c) => c,
        None => match &configured {
            Some(p) => p.category,
            None => ModelCategory::Instruct,
        },
    };
    let policy_mode = match parse_policy_mode(
        match &req.policy_mode {
            Some(s) => Some(s.as_str()),
            None => None,
        },
    ) {
        Some(c) => c,
        None => match &configured {
            Some(p) => p.policy_mode,
            None => PostExecutionPolicyMode::MetadataOnly,
        },
    };
    let compression_aggressiveness = match parse_aggressiveness(
        match &req.compression_aggressiveness {
            Some(s) => Some(s.as_str()),
            None => None,
        },
    ) {
        Some(c) => c,
        None => match &configured {
            Some(p) => p.compression_aggressiveness,
            None => match category {
                ModelCategory::Reasoning => CompressionAggressiveness::Low,
                ModelCategory::Compact => CompressionAggressiveness::Medium,
                ModelCategory::Instruct => CompressionAggressiveness::High,
            },
        },
    };
    let strip_reasoning = match req.strip_reasoning {
        Some(b) => b,
        None => match &configured {
            Some(p) => p.strip_reasoning,
            None => true,
        },
    };
    let r = EffectiveModelPolicy {
        model_id,
        model_category: category,
        policy_mode,
        compression_aggressiveness,
        strip_reasoning,
    };
    assert(effective_is(r, *req, default_model@, configured));
    r
}

} // verus!
