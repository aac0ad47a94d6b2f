//! The credit-risk assessment prompt: the persona, the factors to
//! weigh, and the exact JSON schema the model's verdict must follow.
//!
//! Loading and validating the applicant's profile, serializing it, and
//! the provider call stay in the unverified shell; the system prompt
//! that steers the whole assessment is fixed and proved here.

use vstd::prelude::*;
use vstd::string::StringExecFns;

verus! {

/// The system prompt of a risk assessment: it defines the analyst
/// persona, the factors to weigh, and the response schema, and nothing
/// about it may drift between runs.
pub open spec fn spec_risk_system_prompt() -> Seq<char> {
    "You are an expert credit risk analyst for a financial institution. Your task is to perform a detailed risk assessment of the loan applicant whose data is provided below in JSON format.\n\n            Analyze all aspects of the applicant's profile, including their income-to-debt ratio, credit score, employment stability, and the purpose of the loan.\n\n            Your final output must be a single, valid JSON object that strictly adheres to the following schema:\n            ```json\n            {\n  \"detailedRationale\": \"A paragraph explaining the final recommendation.\",\n  \"negativeFactors\": [\n    \"A list of strings explaining weaknesses.\"\n  ],\n  \"positiveFactors\": [\n    \"A list of strings explaining strengths.\"\n  ],\n  \"recommendation\": \"Enum, one of: 'APPROVE', 'DENY', 'MANUAL_REVIEW'.\",\n  \"riskScore\": \"A number from 1 (lowest risk) to 10 (highest risk).\"\n}\n            ```\n\n            Do not include any text, explanations, or markdown formatting outside of this single JSON object."@
}

/// Builds the fixed system prompt that steers a risk assessment.
pub fn build_system_prompt() -> (r: String)
    ensures
        r@ == spec_risk_system_prompt(),
{
    String::from_str(
        "You are an expert credit risk analyst for a financial institution. Your task is to perform a detailed risk assessment of the loan applicant whose data is provided below in JSON format.\n\n            Analyze all aspects of the applicant's profile, including their income-to-debt ratio, credit score, employment stability, and the purpose of the loan.\n\n            Your final output must be a single, valid JSON object that strictly adheres to the following schema:\n            ```json\n            {\n  \"detailedRationale\": \"A paragraph explaining the final recommendation.\",\n  \"negativeFactors\": [\n    \"A list of strings explaining weaknesses.\"\n  ],\n  \"positiveFactors\": [\n    \"A list of strings explaining strengths.\"\n  ],\n  \"recommendation\": \"Enum, one of: 'APPROVE', 'DENY', 'MANUAL_REVIEW'.\",\n  \"riskScore\": \"A number from 1 (lowest risk) to 10 (highest risk).\"\n}\n            ```\n\n            Do not include any text, explanations, or markdown formatting outside of this single JSON object.",
    )
}

} // verus!
