use mercutio::json::Json;

#[test]
fn parse_and_print_round_trip() {
    let value = Json::parse("{\"b\": [1, -2, 2.5, null, true], \"a\": \"x\"}").unwrap();
    assert_eq!(
        value.to_text(),
        "{\"a\":\"x\",\"b\":[1,-2,2.5,null,true]}"
    );
}
