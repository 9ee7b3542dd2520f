use rocketmq_remoting::util::json::{normalize, TokenType, Tokenizer};

#[test]
fn test_json_token() {
    let json = r#"
            {
                "brokerAddrTable":{
                    "broker-b":{
                        "brokerAddrs":{
                            0:"10.20.141.72:20911"
                        },
                        "brokerName":"broker-b",
                        "cluster":"rocketmq-cpaas"
                    },
                    "broker-a":{
                        "brokerAddrs":{
                            0:"10.20.141.73:20911"
                        },
                        "brokerName":"broker-a",
                        "cluster":"rocketmq-cpaas"
                    }
                },
                "clusterAddrTable":{
                    "rocketmq-cpaas":["broker-b","broker-a"]
                }
            }
        "#;

    let mut tokenizer = Tokenizer::new(json.to_string());
    let result = tokenizer.regular_json();
    println!("打印Tokenizer:{:?} 规范后的JSON:{}", tokenizer, result);
    assert_eq!(
        result,
        r#"{"brokerAddrTable":{"broker-b":{"brokerAddrs":{"0":"10.20.141.72:20911"},"brokerName":"broker-b","cluster":"rocketmq-cpaas"},"broker-a":{"brokerAddrs":{"0":"10.20.141.73:20911"},"brokerName":"broker-a","cluster":"rocketmq-cpaas"}},"clusterAddrTable":{"rocketmq-cpaas":["broker-b","broker-a"]}}"#
    );
}

#[test]
fn test_map_json() {
    let json = r#"
          {"offsetTable":
          {
            {
                "brokerName":"broker-a",
                "queueId":0,
                "topic":"%RETRY%test_submit_68985_l4"
            }:{
                "lastUpdateTimestamp":0,
                "maxOffset":0,
                "minOffset":0
            }
          }
          }
        "#;

    let mut tokenizer = Tokenizer::new(json.to_string());
    tokenizer.parse();
    println!("打印Tokenizer:{:?}", tokenizer.tokens());
    assert_eq!(tokenizer.tokens().len(), 34);
    assert!(matches!(tokenizer.tokens()[0], TokenType::BeginObject));
    assert!(matches!(&tokenizer.tokens()[29], TokenType::Number(n) if n == "0"));
    assert!(matches!(tokenizer.tokens()[30], TokenType::EndObject));
    assert!(matches!(tokenizer.tokens()[33], TokenType::EndDocument));
    let mut ends = 0;
    for token in tokenizer.tokens() {
        if matches!(token, TokenType::EndDocument) {
            ends += 1;
        }
    }
    assert_eq!(ends, 1);
}

#[test]
fn normalize_repairs_integer_map_key() {
    assert_eq!(
        normalize(r#"{"clusterAddrTable":{0:"10.20.141.72:20911"}}"#),
        r#"{"clusterAddrTable":{"0":"10.20.141.72:20911"}}"#
    );
}

#[test]
fn normalize_is_idempotent() {
    for text in [
        r#"{"clusterAddrTable":{0:"10.20.141.72:20911"}}"#,
        r#"{"a":1 }"#,
        r#"[1,2,"x",{5:-6}]"#,
        r#"{"a": [1, 2], "b": {"c": "d"}}"#,
        r#"{brokerName:"broker-a",queueId:0,topic:"T"}"#,
        r#""unterminated"#,
        "12",
        "",
    ] {
        let once = normalize(text);
        assert_eq!(normalize(&once), once);
    }
}

#[test]
fn normalize_keeps_strict_json() {
    for text in [
        r#"{"brokerName":"broker-a","queueId":0,"topic":"T"}"#,
        r#"{"clusterAddrTable":{"0":"10.20.141.72:20911"}}"#,
        r#"{"a":[1,2,-3],"b":{"c":"d"},"e":[],"f":{}}"#,
        r#"[{"x":"y"},"z"]"#,
    ] {
        assert_eq!(normalize(text), text);
    }
    // the same document with spaces between its tokens
    assert_eq!(normalize(r#"{ "a" : [ 1 , 2 ], "b" : "c" }"#), r#"{"a":[1,2],"b":"c"}"#);
    assert_eq!(normalize("{\n  \"a\": 1,\n  \"b\": [\n    -2\n  ]\n}\n"), r#"{"a":1,"b":[-2]}"#);
    assert_eq!(normalize(r#"{"a":1 }"#), r#"{"a":1}"#);
    assert_eq!(normalize("{ 7\t: 8 }"), r#"{"7":8}"#);
}

#[test]
fn normalize_skips_bare_words() {
    // a word that stands bare is made of characters that begin no token
    assert_eq!(
        normalize(r#"{brokerName:"broker-a",queueId:0,topic:"T"}"#),
        r#"{:"broker-a",:0,:"T"}"#
    );
    assert_eq!(normalize(r#"{"a":true,"b":null}"#), r#"{"a":,"b":}"#);
}

#[test]
fn normalize_shortfall_returns_what_was_written() {
    // a number that a string follows is neither a key nor a value
    assert_eq!(normalize(r#"{"a":1"b"}"#), r#"{"a":"#);
    // a string alone is neither a key nor a value
    assert_eq!(normalize(r#""a""#), "");
    // a number at the end of the text
    assert_eq!(normalize("[12"), "[");
}

#[test]
fn tokenize_edge_cases() {
    let mut tokenizer = Tokenizer::new("12".to_string());
    tokenizer.parse();
    let tokens = tokenizer.tokens();
    assert_eq!(tokens.len(), 3);
    assert!(matches!(&tokens[0], TokenType::Number(n) if n == "12"));
    assert!(matches!(tokens[1], TokenType::EndDocument));
    assert!(matches!(tokens[2], TokenType::EndDocument));

    // what follows the digits and is no delimiter is read next
    let mut tokenizer = Tokenizer::new("1-2 3\"x\"4{5\n".to_string());
    tokenizer.parse();
    let tokens = tokenizer.tokens();
    assert_eq!(tokens.len(), 8);
    assert!(matches!(&tokens[0], TokenType::Number(n) if n == "1"));
    assert!(matches!(&tokens[1], TokenType::Number(n) if n == "-2"));
    assert!(matches!(&tokens[2], TokenType::Number(n) if n == "3"));
    assert!(matches!(&tokens[3], TokenType::StringValue(s) if s == "x"));
    assert!(matches!(&tokens[4], TokenType::Number(n) if n == "4"));
    assert!(matches!(tokens[5], TokenType::BeginObject));
    assert!(matches!(&tokens[6], TokenType::Number(n) if n == "5"));
    assert!(matches!(tokens[7], TokenType::EndDocument));

    // a backslash does not keep a quote from ending the string
    let mut tokenizer = Tokenizer::new("-7]\"a\\\"b\"".to_string());
    tokenizer.parse();
    let tokens = tokenizer.tokens();
    assert_eq!(tokens.len(), 5);
    assert!(matches!(&tokens[0], TokenType::Number(n) if n == "-7"));
    assert!(matches!(tokens[1], TokenType::EndArray));
    assert!(matches!(&tokens[2], TokenType::StringValue(s) if s == "a\\"));
    assert!(matches!(&tokens[3], TokenType::StringValue(s) if s == ""));
    assert!(matches!(tokens[4], TokenType::EndDocument));

    // the tokens of a second reading come after those of the first
    tokenizer.parse();
    assert_eq!(tokenizer.tokens().len(), 10);
    assert_eq!(
        Tokenizer::do_regular_json(&vec![
            TokenType::Null("null".to_string()),
            TokenType::SepComma,
            TokenType::Boolean("true".to_string()),
        ]),
        "null,true"
    );
}
