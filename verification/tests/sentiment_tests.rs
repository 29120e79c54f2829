use prompt_session::sentiment::{
    prediction_request, PredictionRequest, SentimentError, SentimentPredictor,
};

#[test]
fn a_new_predictor_is_not_trained() {
    let predictor = SentimentPredictor::new("http://localhost:8000");
    assert!(!predictor.is_trained());
    assert_eq!(predictor.training_url(), Some("http://localhost:8000/train".to_string()));
}

#[test]
fn training_that_was_delivered_is_remembered() {
    let mut predictor = SentimentPredictor::new("http://localhost:8000");
    assert_eq!(predictor.train(true), Ok(()));
    assert!(predictor.is_trained());
    assert_eq!(predictor.training_url(), None);
}

#[test]
fn training_twice_reports_that_the_service_was_trained() {
    let mut predictor = SentimentPredictor::new("http://localhost:8000");
    assert_eq!(predictor.train(true), Ok(()));
    assert_eq!(predictor.train(true), Err(SentimentError::AlreadyTrained));
    assert_eq!(predictor.train(false), Err(SentimentError::AlreadyTrained));
    assert!(predictor.is_trained());
}

#[test]
fn training_that_was_not_delivered_leaves_the_predictor_untrained() {
    let mut predictor = SentimentPredictor::new("http://localhost:8000");
    assert_eq!(predictor.train(false), Err(SentimentError::Network));
    assert!(!predictor.is_trained());
    assert_eq!(predictor.train(true), Ok(()));
}

#[test]
fn analyse_sentiment_posts_the_text_as_a_json_object() {
    let predictor = SentimentPredictor::new("http://localhost:8000");
    assert_eq!(
        predictor.analyse_sentiment("I love this work!"),
        Ok(PredictionRequest {
            url: "http://localhost:8000/predict".to_string(),
            body: "{\"text\":\"I love this work!\"}".to_string(),
        })
    );
}

#[test]
fn analyse_sentiment_escapes_what_json_cannot_hold_as_it_stands() {
    let predictor = SentimentPredictor::new("http://sentiment.example/api");
    let request = predictor.analyse_sentiment("She said \"no\"\nand left\\").unwrap();
    assert_eq!(request.url, "http://sentiment.example/api/predict");
    assert_eq!(request.body, "{\"text\":\"She said \\\"no\\\"\\nand left\\\\\"}");
    let parsed: serde_json::Value = serde_json::from_str(&request.body).unwrap();
    assert_eq!(parsed["text"], "She said \"no\"\nand left\\");
}

#[test]
fn analyse_sentiment_does_not_need_a_trained_predictor() {
    let mut predictor = SentimentPredictor::new("");
    let before = predictor.analyse_sentiment("").unwrap();
    assert_eq!(before.url, "/predict");
    assert_eq!(before.body, "{\"text\":\"\"}");
    assert_eq!(predictor.train(true), Ok(()));
    assert_eq!(predictor.analyse_sentiment("").unwrap(), before);
}

#[test]
fn a_body_that_could_not_be_written_gives_no_request() {
    let failed: Result<String, &str> = Err("no body");
    assert_eq!(
        prediction_request("http://localhost:8000/predict".to_string(), failed),
        Err(SentimentError::Encoding)
    );
    let written: Result<String, &str> = Ok("{}".to_string());
    assert_eq!(
        prediction_request("http://localhost:8000/predict".to_string(), written),
        Ok(PredictionRequest {
            url: "http://localhost:8000/predict".to_string(),
            body: "{}".to_string(),
        })
    );
}

#[test]
fn analyse_sentiment_always_gives_a_request() {
    let predictor = SentimentPredictor::new("http://localhost:8000");
    for text in ["", "plain", "\u{0}\u{1f}\u{7f}", "\"\\\"", "\u{10ffff}é\n\t"] {
        let request = predictor.analyse_sentiment(text).unwrap();
        let parsed: serde_json::Value = serde_json::from_str(&request.body).unwrap();
        assert_eq!(parsed["text"], text);
    }
}
