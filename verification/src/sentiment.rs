//! The sentiment service as this library sees it: where its two requests
//! go, what the request for a prediction carries, and whether the service
//! has been trained. The requests themselves are sent outside this
//! library.

use vstd::prelude::*;
use vstd::string::*;

verus! {

/// The path of the request that trains the service.
pub const TRAIN_PATH: &'static str = "/train";

/// The path of the request that asks for a prediction.
pub const PREDICT_PATH: &'static str = "/predict";

/// The member of the request body that holds the text to analyse.
pub const TEXT_MEMBER: &'static str = "text";

/// Makes `serde_json::Error` known as a type of which nothing is seen: a
/// value of it is only ever told from success.
#[verifier::external_type_specification]
#[verifier::external_body]
pub struct ExJsonError(serde_json::Error);

/// The JSON text of the object whose one member `key` holds the string
/// `value`, as `serde_json` writes it.
pub uninterp spec fn json_member_text(key: Seq<char>, value: Seq<char>) -> Seq<char>;

/// Trusted: makes the `serde_json::Value` that is an object with the one
/// member `key`, a string with the content `value`, and serialises it with
/// `serde_json::to_string`. The call succeeds: the serialiser writes into
/// a vector, which takes every write, and an object whose key and value
/// are strings gives it nothing else to refuse. How JSON escapes a string
/// is not written out here: the text is given the name
/// `json_member_text`, which claims only that it is fixed by `key` and
/// `value`.
#[verifier::external_body]
fn json_member(key: &str, value: &str) -> (text: Result<String, serde_json::Error>)
    ensures
        text is Ok,
        text matches Ok(t) ==> t@ == json_member_text(key@, value@),
{
    let mut object = serde_json::Map::new();
    object.insert(key.to_string(), serde_json::Value::String(value.to_string()));
    serde_json::to_string(&serde_json::Value::Object(object))
}

/// Why the sentiment service gave no answer.
#[derive(Debug, Clone, Copy, PartialEq, Eq, Structural)]
pub enum SentimentError {
    /// The service was trained before; it is not trained again.
    AlreadyTrained,
    /// The body of the request could not be written. A request that
    /// `analyse_sentiment` makes is never refused for this.
    Encoding,
    /// The request was not delivered, or no answer came back.
    Network,
}

/// What is sent to have a text analysed: a POST to `url` with the JSON
/// text `body`.
#[derive(Debug, Clone, PartialEq, Eq)]
pub struct PredictionRequest {
    pub url: String,
    pub body: String,
}

/// The mathematical value of a `PredictionRequest`.
pub ghost struct PredictionRequestView {
    pub url: Seq<char>,
    pub body: Seq<char>,
}

impl View for PredictionRequest {
    type V = PredictionRequestView;

    open spec fn view(&self) -> PredictionRequestView {
        PredictionRequestView { url: self.url@, body: self.body@ }
    }
}

/// The mathematical value of a `SentimentPredictor`.
pub ghost struct PredictorView {
    pub base_url: Seq<char>,
    pub trained: bool,
}

/// The sentiment service at one address.
pub struct SentimentPredictor {
    base_url: String,
    trained: bool,
}

impl View for SentimentPredictor {
    type V = PredictorView;

    closed spec fn view(&self) -> PredictorView {
        PredictorView { base_url: self.base_url@, trained: self.trained }
    }
}

/// Puts a request for a prediction together from the address and from
/// what writing the body came to.
pub fn prediction_request<E>(url: String, body: Result<String, E>) -> (request: Result<
    PredictionRequest,
    SentimentError,
>)
    ensures
        match body {
            Ok(text) => request matches Ok(r) && r@ == (PredictionRequestView {
                url: url@,
                body: text@,
            }),
            Err(_) => request == Err::<PredictionRequest, SentimentError>(SentimentError::Encoding),
        },
{
    match body {
        Ok(text) => Ok(PredictionRequest { url, body: text }),
        Err(_) => Err(SentimentError::Encoding),
    }
}

impl SentimentPredictor {
    /// The service at `base_url`, not yet trained.
    pub fn new(base_url: &str) -> (predictor: SentimentPredictor)
        ensures
            predictor@ == (PredictorView { base_url: base_url@, trained: false }),
    {
        SentimentPredictor { base_url: String::from_str(base_url), trained: false }
    }

    /// Whether the service has been trained through this predictor.
    pub fn is_trained(&self) -> (trained: bool)
        ensures
            trained == self@.trained,
    {
        self.trained
    }

    /// Where the request that trains the service is to be posted, or
    /// `None` if the service was trained before and nothing is to be
    /// sent.
    pub fn training_url(&self) -> (url: Option<String>)
        ensures
            self@.trained ==> url is None,
            !self@.trained ==> url is Some && url.unwrap()@ == self@.base_url + TRAIN_PATH@,
    {
        if self.trained {
            None
        } else {
            let mut url = self.base_url.clone();
            url.append(TRAIN_PATH);
            Some(url)
        }
    }

    /// Records what came of training the service. `delivered` says
    /// whether the request to `training_url` went through. A predictor
    /// that was trained before reports so and stays as it is, whatever
    /// `delivered` says; one whose request failed stays untrained; one
    /// whose request went through is trained from now on.
    pub fn train(&mut self, delivered: bool) -> (outcome: Result<(), SentimentError>)
        ensures
            final(self)@.base_url == old(self)@.base_url,
            old(self)@.trained ==> outcome == Err::<(), SentimentError>(
                SentimentError::AlreadyTrained,
            ) && final(self)@.trained,
            !old(self)@.trained && delivered ==> outcome == Ok::<(), SentimentError>(())
                && final(self)@.trained,
            !old(self)@.trained && !delivered ==> outcome == Err::<(), SentimentError>(
                SentimentError::Network,
            ) && !final(self)@.trained,
    {
        if self.trained {
            Err(SentimentError::AlreadyTrained)
        } else if delivered {
            self.trained = true;
            Ok(())
        } else {
            Err(SentimentError::Network)
        }
    }

    /// What is to be sent to have `text` analysed: the address of the
    /// prediction, and as body the JSON object whose member `text` holds
    /// the text. There is always such a request, whether the service was
    /// trained or not, and the predictor stays as it is.
    pub fn analyse_sentiment(&self, text: &str) -> (request: Result<
        PredictionRequest,
        SentimentError,
    >)
        ensures
            request matches Ok(r) && r@ == (PredictionRequestView {
                url: self@.base_url + PREDICT_PATH@,
                body: json_member_text(TEXT_MEMBER@, text@),
            }),
    {
        let mut url = self.base_url.clone();
        url.append(PREDICT_PATH);
        prediction_request(url, json_member(TEXT_MEMBER, text))
    }
}

} // verus!
