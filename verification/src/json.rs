//! What the pipeline reads from the endpoint's JSON answer. Parsing and
//! encoding are `serde_json`'s; their results are given names here, and the
//! contracts of this crate speak of those names.

use vstd::prelude::*;

verus! {

/// A JSON document as `serde_json` holds it.
#[verifier::external_type_specification]
#[verifier::external_body]
pub struct ExValue(serde_json::Value);

/// The error of `serde_json`'s parser and encoder.
#[verifier::external_type_specification]
#[verifier::external_body]
pub struct ExError(serde_json::Error);

/// What `serde_json::from_slice` makes of a text when asked for an array of
/// JSON values.
pub uninterp spec fn json_array(text: Seq<u8>) -> Result<Seq<serde_json::Value>, serde_json::Error>;

/// What indexing a JSON value by a string key gives.
pub uninterp spec fn json_member(value: serde_json::Value, key: Seq<char>) -> serde_json::Value;

/// What `serde_json::Value::as_u64` gives.
pub uninterp spec fn json_u64(value: serde_json::Value) -> Option<u64>;

/// What `serde_json::to_vec` makes of a JSON value.
pub uninterp spec fn json_text(value: serde_json::Value) -> Result<Seq<u8>, serde_json::Error>;

/// The message that a `serde_json::Error` displays.
pub uninterp spec fn json_error_text(error: serde_json::Error) -> Seq<char>;

/// Calls `serde_json::from_slice` for a `Vec<serde_json::Value>`. Trusted:
/// the outcome, values or error, is the one that the parser determines for
/// these bytes. Nothing is claimed about which texts parse.
#[verifier::external_body]
fn parse_array(text: &[u8]) -> (parsed: Result<Vec<serde_json::Value>, serde_json::Error>)
    ensures
        match parsed {
            Ok(values) => json_array(text@) == Ok::<Seq<serde_json::Value>, serde_json::Error>(
                values@,
            ),
            Err(error) => json_array(text@) == Err::<Seq<serde_json::Value>, serde_json::Error>(
                error,
            ),
        },
{
    serde_json::from_slice::<Vec<serde_json::Value>>(text)
}

/// Indexes a `serde_json::Value` by a string key, as `value[key]` does.
/// Trusted: the value found is the one that indexing determines for this
/// value and key. Indexing a shared value never fails: where the value is no
/// object or lacks the key, `serde_json` hands out a null.
#[verifier::external_body]
fn member<'a>(value: &'a serde_json::Value, key: &str) -> (found: &'a serde_json::Value)
    ensures
        *found == json_member(*value, key@),
{
    &value[key]
}

/// `serde_json::Value::as_u64`. Trusted: the result is the one that the
/// method determines for this value.
pub assume_specification[ serde_json::Value::as_u64 ](value: &serde_json::Value) -> (number:
    Option<u64>)
    ensures
        number == json_u64(*value),
;

/// Calls `serde_json::to_vec` on a `serde_json::Value`. Trusted: the outcome,
/// bytes or error, is the one that the encoder determines for this value.
#[verifier::external_body]
fn encode(value: &serde_json::Value) -> (encoded: Result<Vec<u8>, serde_json::Error>)
    ensures
        match encoded {
            Ok(bytes) => json_text(*value) == Ok::<Seq<u8>, serde_json::Error>(bytes@),
            Err(error) => json_text(*value) == Err::<Seq<u8>, serde_json::Error>(error),
        },
{
    serde_json::to_vec(value)
}

/// Renders a `serde_json::Error` through its `Display` impl. Trusted: the
/// text is the one that the error displays.
#[verifier::external_body]
fn error_text(error: &serde_json::Error) -> (text: String)
    ensures
        text@ == json_error_text(*error),
{
    error.to_string()
}

/// The object key under which a result holds its attestation rewards.
pub const REWARDS_KEY: &'static str = "attestation_rewards";

/// The key, inside the attestation rewards, of their total in gwei.
pub const TOTAL_KEY: &'static str = "total";

/// What the pipeline reads from one result of the endpoint.
#[derive(Debug)]
pub struct Evaluation {
    /// The unsigned integer at `attestation_rewards.total`, where there is one.
    pub reward: Option<u64>,
    /// The result encoded back to JSON bytes, or why that failed.
    pub encoding: Result<Vec<u8>, String>,
}

/// Mathematical value of an [`Evaluation`].
pub struct EvaluationView {
    pub reward: Option<u64>,
    pub encoding: Result<Seq<u8>, Seq<char>>,
}

impl View for Evaluation {
    type V = EvaluationView;

    open spec fn view(&self) -> EvaluationView {
        EvaluationView {
            reward: self.reward,
            encoding: match self.encoding {
                Ok(bytes) => Ok(bytes@),
                Err(cause) => Err(cause@),
            },
        }
    }
}

/// The views of evaluations, in order.
pub open spec fn evaluation_views(results: Seq<Evaluation>) -> Seq<EvaluationView> {
    Seq::new(results.len(), |i: int| results[i]@)
}

/// The reward that a result reports: the unsigned integer found at
/// `attestation_rewards.total`.
pub open spec fn reward_of(value: serde_json::Value) -> Option<u64> {
    json_u64(json_member(json_member(value, REWARDS_KEY@), TOTAL_KEY@))
}

/// The bytes that a result is persisted as, or the text of the encoder's
/// error.
pub open spec fn encoding_of(value: serde_json::Value) -> Result<Seq<u8>, Seq<char>> {
    match json_text(value) {
        Ok(bytes) => Ok(bytes),
        Err(error) => Err(json_error_text(error)),
    }
}

/// What the pipeline reads from one result.
pub open spec fn evaluation_of(value: serde_json::Value) -> EvaluationView {
    EvaluationView { reward: reward_of(value), encoding: encoding_of(value) }
}

/// What the pipeline reads from a response body: one evaluation per element
/// of the JSON array, in order, or the text of the parser's error.
pub open spec fn decoded(body: Seq<u8>) -> Result<Seq<EvaluationView>, Seq<char>> {
    match json_array(body) {
        Ok(values) => Ok(Seq::new(values.len(), |i: int| evaluation_of(values[i]))),
        Err(error) => Err(json_error_text(error)),
    }
}

/// Reads the reward and the persisted form off one result.
fn evaluate(value: &serde_json::Value) -> (evaluation: Evaluation)
    ensures
        evaluation@ == evaluation_of(*value),
{
    let reward = member(member(value, REWARDS_KEY), TOTAL_KEY).as_u64();
    let encoding = match encode(value) {
        Ok(bytes) => Ok(bytes),
        Err(error) => Err(error_text(&error)),
    };
    Evaluation { reward, encoding }
}

/// Reads a response body: parses it as a JSON array and evaluates each
/// element. Fails with the parser's message where the body is no JSON array.
pub fn decode(body: &[u8]) -> (results: Result<Vec<Evaluation>, String>)
    ensures
        match results {
            Ok(evaluations) => decoded(body@) == Ok::<Seq<EvaluationView>, Seq<char>>(
                evaluation_views(evaluations@),
            ),
            Err(cause) => decoded(body@) == Err::<Seq<EvaluationView>, Seq<char>>(cause@),
        },
{
    match parse_array(body) {
        Err(error) => Err(error_text(&error)),
        Ok(values) => {
            let mut evaluations: Vec<Evaluation> = Vec::new();
            let mut i: usize = 0;
            while i < values.len()
                invariant
                    i <= values.len(),
                    evaluations.len() == i,
                    forall|k: int| 0 <= k < i ==> (#[trigger] evaluations[k])@ == evaluation_of(values[k]),
                decreases values.len() - i,
            {
                evaluations.push(evaluate(&values[i]));
                i += 1;
            }
            assert(evaluation_views(evaluations@) =~= Seq::new(
                values@.len(),
                |i: int| evaluation_of(values@[i]),
            ));
            Ok(evaluations)
        },
    }
}

} // verus!
