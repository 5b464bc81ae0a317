use event_relay::config::Config;
use event_relay::consumer::{ConsumerLoop, Fetched, Position, Step};
use event_relay::envelope::Envelope;
use event_relay::gateway::{accept, ack_reply, body_kind, message_key, ping_reply, record_for, BodyKind, Rejection};
use event_relay::number::{parse_number, NumberError};
use event_relay::payload::{Currency, DecodeError};
use event_relay::price::{evaluate, Action, Decimal};

fn dec(negative: bool, mantissa: u64, exponent: i64) -> Decimal {
    Decimal { negative, mantissa, exponent }
}

fn price_of(text: &str) -> Decimal {
    parse_number(text).unwrap()
}

fn default_config() -> Config {
    Config::from_settings(None, None, None, None, None)
}

fn is_uuid_v4(s: &str) -> bool {
    let c: Vec<char> = s.chars().collect();
    c.len() == 36
        && c.iter().enumerate().all(|(i, ch)| {
            if i == 8 || i == 13 || i == 18 || i == 23 {
                *ch == '-'
            } else {
                ch.is_ascii_digit() || ('a'..='f').contains(ch)
            }
        })
        && c[14] == '4'
}

#[test]
fn rule_boundary() {
    assert_eq!(evaluate(&price_of("50000.0")), Action::Buy);
    assert_eq!(evaluate(&price_of("50000.01")), Action::Sell);
    assert_eq!(evaluate(&price_of("0.0")), Action::Buy);
}

#[test]
fn rule_from_float_text() {
    assert_eq!(evaluate(&price_of(&format!("{}", 50000.0f64))), Action::Buy);
    assert_eq!(evaluate(&price_of(&format!("{}", 50000.01f64))), Action::Sell);
    assert_eq!(evaluate(&price_of(&format!("{}", 0.0f64))), Action::Buy);
}

#[test]
fn rule_other_prices() {
    assert_eq!(evaluate(&dec(false, 50001, 0)), Action::Sell);
    assert_eq!(evaluate(&dec(false, 50000, 0)), Action::Buy);
    assert_eq!(evaluate(&dec(false, 5, 4)), Action::Buy);
    assert_eq!(evaluate(&dec(false, 6, 4)), Action::Sell);
    assert_eq!(evaluate(&dec(false, 1, 5)), Action::Sell);
    assert_eq!(evaluate(&dec(false, 1, 300)), Action::Sell);
    assert_eq!(evaluate(&dec(false, u64::MAX, -15)), Action::Buy);
    assert_eq!(evaluate(&dec(false, u64::MAX, -14)), Action::Sell);
    assert_eq!(evaluate(&dec(false, 5000000000000000001, -14)), Action::Sell);
    assert_eq!(evaluate(&dec(false, 5000000000000000000, -14)), Action::Buy);
    assert_eq!(evaluate(&dec(true, 60000, 0)), Action::Buy);
    assert_eq!(evaluate(&dec(false, 0, 400)), Action::Buy);
}

#[test]
fn parse_number_forms() {
    assert_eq!(parse_number("51234.5"), Ok(dec(false, 512345, -1)));
    assert_eq!(parse_number("-3"), Ok(dec(true, 3, 0)));
    assert_eq!(parse_number("1e16"), Ok(dec(false, 1, 16)));
    assert_eq!(parse_number("1.5e-7"), Ok(dec(false, 15, -8)));
    assert_eq!(parse_number("2E+3"), Ok(dec(false, 2, 3)));
    assert_eq!(parse_number("18446744073709551615"), Ok(dec(false, u64::MAX, 0)));
}

#[test]
fn parse_number_refusals() {
    assert_eq!(parse_number(""), Err(NumberError::NotANumber));
    assert_eq!(parse_number("-"), Err(NumberError::NotANumber));
    assert_eq!(parse_number("abc"), Err(NumberError::NotANumber));
    assert_eq!(parse_number("1."), Err(NumberError::NotANumber));
    assert_eq!(parse_number(".5"), Err(NumberError::NotANumber));
    assert_eq!(parse_number("1e"), Err(NumberError::NotANumber));
    assert_eq!(parse_number("1e+"), Err(NumberError::NotANumber));
    assert_eq!(parse_number("12x"), Err(NumberError::NotANumber));
    assert_eq!(parse_number("18446744073709551616"), Err(NumberError::OutOfRange));
    assert_eq!(parse_number("1e1000000001"), Err(NumberError::OutOfRange));
}

#[test]
fn decode_price_record() {
    assert_eq!(Currency::decode("{\"btc\": 51234.5}"), Ok(Currency { btc: dec(false, 512345, -1) }));
    assert_eq!(Currency::decode("{\"btc\": 50000, \"eth\": 3}"), Ok(Currency { btc: dec(false, 50000, 0) }));
    assert_eq!(Currency::decode("{\"btc\": -2.5}"), Ok(Currency { btc: dec(true, 25, -1) }));
}

#[test]
fn decode_failures() {
    assert_eq!(Currency::decode(""), Err(DecodeError::NotAPriceRecord));
    assert_eq!(Currency::decode("not json"), Err(DecodeError::NotAPriceRecord));
    assert_eq!(Currency::decode("{\"eth\": 1}"), Err(DecodeError::NotAPriceRecord));
    assert_eq!(Currency::decode("{\"btc\": \"1\"}"), Err(DecodeError::NotAPriceRecord));
    assert_eq!(Currency::decode("[1, 2]"), Err(DecodeError::NotAPriceRecord));
}

#[test]
fn from_btc_text_cases() {
    assert_eq!(Currency::from_btc_text(Some("7")), Ok(Currency { btc: dec(false, 7, 0) }));
    assert_eq!(Currency::from_btc_text(Some("x")), Err(DecodeError::NotAPriceRecord));
    assert_eq!(Currency::from_btc_text(Some("99999999999999999999")), Err(DecodeError::PriceOutOfRange));
    assert_eq!(Currency::from_btc_text(None), Err(DecodeError::NotAPriceRecord));
}

#[test]
fn content_type_dispatch() {
    assert_eq!(body_kind(Some("application/json")), Ok(BodyKind::Json));
    assert_eq!(body_kind(Some("application/json; charset=utf-8")), Ok(BodyKind::Json));
    assert_eq!(body_kind(Some("application/x-www-form-urlencoded")), Ok(BodyKind::Form));
    assert_eq!(body_kind(Some("text/plain")), Err(Rejection::UnsupportedMediaType));
    assert_eq!(body_kind(Some("application/js")), Err(Rejection::UnsupportedMediaType));
    assert_eq!(body_kind(Some("")), Err(Rejection::UnsupportedMediaType));
    assert_eq!(body_kind(None), Err(Rejection::UnsupportedMediaType));
}

#[test]
fn unsupported_type_replies_415() {
    let rejection = body_kind(Some("text/plain")).unwrap_err();
    assert_eq!(rejection.status(), 415);
    let reply = rejection.reply();
    assert_eq!(reply.status, 415);
    assert_eq!(reply.body, "");
    assert_eq!(reply.content_type, None);
}

#[test]
fn config_defaults() {
    let c = default_config();
    assert_eq!(c.server, "localhost:9092");
    assert_eq!(c.username, "kafka");
    assert_eq!(c.password, "kafka");
    assert_eq!(c.group_id, "1");
    assert_eq!(c.topic, "kong-upstream");
}

#[test]
fn config_given_values() {
    let c = Config::from_settings(
        Some("broker:1".to_string()),
        Some("u".to_string()),
        Some("p".to_string()),
        Some("g".to_string()),
        Some("t".to_string()),
    );
    assert_eq!(c.server, "broker:1");
    assert_eq!(c.username, "u");
    assert_eq!(c.password, "p");
    assert_eq!(c.group_id, "g");
    assert_eq!(c.topic, "t");
}

#[test]
fn key_from_id() {
    assert_eq!(message_key("abc"), "Key abc");
    assert_eq!(message_key(""), "Key ");
}

#[test]
fn replies() {
    let ack = ack_reply();
    assert_eq!(ack.status, 200);
    assert_eq!(ack.body, "{\"message\":\"message sent\"}");
    let ping = ping_reply();
    assert_eq!(ping.status, 200);
    assert_eq!(ping.body, "Pong!");
    assert_eq!(ping.content_type, None);
}

#[test]
fn envelope_with_identity() {
    let e = Envelope::with_identity("id-1".to_string(), 1700000000000, "application/json", "{}".to_string());
    assert_eq!(e.id, "id-1");
    assert_eq!(e.ty, "example.test");
    assert_eq!(e.source, "http://localhost/");
    assert_eq!(e.time_millis, 1700000000000);
    assert_eq!(e.content_type, "application/json");
    assert_eq!(e.data, "{}");
    let r = record_for(&default_config(), e);
    assert_eq!(r.topic, "kong-upstream");
    assert_eq!(r.key, "Key id-1");
}

#[test]
fn envelope_encode_fresh_identity() {
    let e = Envelope::encode("{\"a\":1}".to_string(), "application/json");
    assert!(is_uuid_v4(&e.id));
    assert!(e.time_millis > 1_600_000_000_000);
    assert_eq!(e.data, "{\"a\":1}");
}

#[test]
fn accepted_publish() {
    let (record, reply) =
        accept(&default_config(), Some("application/json"), "{\"name\":\"x\"}".to_string()).unwrap();
    assert_eq!(reply.status, 200);
    assert_eq!(reply.body, "{\"message\":\"message sent\"}");
    assert_eq!(reply.content_type.as_deref(), Some("application/json"));
    assert_eq!(record.topic, "kong-upstream");
    assert!(is_uuid_v4(&record.envelope.id));
    assert_eq!(record.key, format!("Key {}", record.envelope.id));
    assert_eq!(record.envelope.ty, "example.test");
    assert_eq!(record.envelope.source, "http://localhost/");
    assert_eq!(record.envelope.content_type, "application/json");
    assert_eq!(record.envelope.data, "{\"name\":\"x\"}");
}

#[test]
fn distinct_ids_for_two_publishes() {
    let config = default_config();
    let form = Some("application/x-www-form-urlencoded");
    let (a, _) = accept(&config, form, "field=one".to_string()).unwrap();
    let (b, _) = accept(&config, form, "field=two".to_string()).unwrap();
    assert_ne!(a.envelope.id, b.envelope.id);
    assert_ne!(a.key, b.key);
}

#[test]
fn round_trip_price() {
    let (record, _) =
        accept(&default_config(), Some("application/json"), "{\"btc\": 51234.5}".to_string()).unwrap();
    let c = Currency::decode(&record.envelope.data).unwrap();
    assert_eq!(c.btc, dec(false, 512345, -1));
    assert_eq!(c.btc.mantissa as f64 / 10.0, 51234.5);
}

fn received(partition: i32, offset: i64, payload: &str) -> Fetched {
    Fetched::Received { position: Position { partition, offset }, payload: payload.to_string() }
}

#[test]
fn consumer_steps() {
    let mut c = ConsumerLoop::new();
    assert_eq!(c.on_fetched(&Fetched::Failed), Step::Skip);
    assert_eq!(c.committed(0), None);
    let s = c.on_fetched(&received(0, 5, "{\"btc\": 60000}"));
    assert_eq!(
        s,
        Step::Act { action: Action::Sell, price: dec(false, 60000, 0), commit: Position { partition: 0, offset: 5 } }
    );
    assert_eq!(c.committed(0), Some(5));
    let s = c.on_fetched(&received(1, 9, "{\"btc\": 100.25}"));
    assert_eq!(
        s,
        Step::Act { action: Action::Buy, price: dec(false, 10025, -2), commit: Position { partition: 1, offset: 9 } }
    );
    assert_eq!(c.committed(0), Some(5));
    assert_eq!(c.committed(1), Some(9));
}

#[test]
fn malformed_message_is_committed_and_loop_goes_on() {
    let mut c = ConsumerLoop::new();
    let s = c.on_fetched(&received(2, 7, "garbage"));
    assert_eq!(s, Step::Discard { commit: Position { partition: 2, offset: 7 } });
    assert_eq!(c.committed(2), Some(7));
    let s = c.on_fetched(&received(2, 8, "{\"btc\": 50000.0}"));
    assert_eq!(
        s,
        Step::Act { action: Action::Buy, price: dec(false, 500000, -1), commit: Position { partition: 2, offset: 8 } }
    );
    assert_eq!(c.committed(2), Some(8));
    let s = c.on_fetched(&received(2, 9, "{\"eth\": 1}"));
    assert_eq!(s, Step::Discard { commit: Position { partition: 2, offset: 9 } });
    let s = c.on_fetched(&received(2, 10, "{\"btc\": 50000.01}"));
    assert_eq!(
        s,
        Step::Act { action: Action::Sell, price: dec(false, 5000001, -2), commit: Position { partition: 2, offset: 10 } }
    );
    assert_eq!(c.committed(2), Some(10));
}

#[test]
fn failed_fetch_commits_nothing() {
    let mut c = ConsumerLoop::new();
    c.on_fetched(&received(3, 1, ""));
    assert_eq!(c.on_fetched(&Fetched::Failed), Step::Skip);
    assert_eq!(c.committed(3), Some(1));
    assert_eq!(c.committed(4), None);
}

#[test]
fn accepted_form_keeps_declared_type() {
    let (record, reply) =
        accept(&default_config(), Some("application/x-www-form-urlencoded"), "btc=1&x=y".to_string()).unwrap();
    assert_eq!(reply.status, 200);
    assert_eq!(record.envelope.content_type, "application/x-www-form-urlencoded");
    assert_eq!(record.envelope.data, "btc=1&x=y");
    assert_eq!(record.key, format!("Key {}", record.envelope.id));
}

#[test]
fn accepted_json_keeps_declared_parameters() {
    let (record, _) =
        accept(&default_config(), Some("application/json; charset=utf-8"), "{}".to_string()).unwrap();
    assert_eq!(record.envelope.content_type, "application/json; charset=utf-8");
}

#[test]
fn accept_refuses_unsupported_type() {
    assert_eq!(
        accept(&default_config(), Some("text/plain"), "hello".to_string()).unwrap_err(),
        Rejection::UnsupportedMediaType
    );
    assert_eq!(
        accept(&default_config(), None, "{}".to_string()).unwrap_err(),
        Rejection::UnsupportedMediaType
    );
}
