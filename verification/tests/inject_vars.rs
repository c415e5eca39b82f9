use daigent::inject_vars::{create_init_script, is_valid_key, ConfigError, InjectedVars};

fn vars_of(pairs: &[(&str, &str)]) -> InjectedVars {
    let mut vars = InjectedVars::new();
    for (key, value) in pairs {
        vars.insert(key, value.to_string());
    }
    vars
}

fn script_of(fields: &str) -> String {
    format!(
        "\n        console.log(\"Successfully injected InputShare variables\");\n        window.__INJECTED__ = {{\n            {}\n        }};\n    ",
        fields
    )
}

/// Reads a script the way a front-end would: the fields of the object, each
/// key with the string that its literal denotes.
fn read_back(script: &str) -> Vec<(String, String)> {
    let head = "\n        console.log(\"Successfully injected InputShare variables\");\n        window.__INJECTED__ = {\n            ";
    let tail = "\n        };\n    ";
    assert!(script.starts_with(head));
    let chars: Vec<char> = script[head.len()..].chars().collect();
    let tail_chars: Vec<char> = tail.chars().collect();
    let mut fields = Vec::new();
    let mut i = 0;
    if chars == tail_chars {
        return fields;
    }
    loop {
        let mut key = String::new();
        while chars[i] != ':' {
            key.push(chars[i]);
            i += 1;
        }
        assert_eq!(chars[i + 1], ' ');
        assert_eq!(chars[i + 2], '\'');
        i += 3;
        let mut value = String::new();
        while chars[i] != '\'' {
            let c = chars[i];
            assert!(c != '\n' && c != '\r');
            if c == '\\' {
                let e = chars[i + 1];
                match e {
                    '\\' | '\'' | '"' => {
                        value.push(e);
                        i += 2;
                    }
                    'n' => {
                        value.push('\n');
                        i += 2;
                    }
                    'r' => {
                        value.push('\r');
                        i += 2;
                    }
                    'u' => {
                        let hex: String = chars[i + 2..i + 6].iter().collect();
                        let code = u32::from_str_radix(&hex, 16).unwrap();
                        value.push(char::from_u32(code).unwrap());
                        i += 6;
                    }
                    _ => panic!("unknown escape"),
                }
            } else {
                value.push(c);
                i += 1;
            }
        }
        i += 1;
        fields.push((key, value));
        if chars[i..] == tail_chars[..] {
            return fields;
        }
        assert_eq!(chars[i], ',');
        assert_eq!(chars[i + 1], '\n');
        i += 2;
    }
}

#[test]
fn keys_that_are_field_names() {
    for key in ["dev", "server_port", "_", "$", "a", "Z9", "_x1", "$scope", "camelCase", "A_B_C"] {
        assert!(is_valid_key(key), "{}", key);
    }
}

#[test]
fn keys_that_are_no_field_names() {
    for key in [
        "", "1", "1x", "9lives", "a-b", "a b", " a", "a ", "a.b", "a:b", "a'b", "a\"b", "a\nb",
        "\u{e9}", "caf\u{e9}", "a\\b", "{", "a,b", "-", "a\u{0}",
    ] {
        assert!(!is_valid_key(key), "{:?}", key);
    }
}

#[test]
fn new_vars_are_empty() {
    let vars = InjectedVars::new();
    assert_eq!(vars.len(), 0);
    assert_eq!(vars.get("dev"), None);
    assert_eq!(vars.position("dev"), None);
}

#[test]
fn insert_appends_new_keys_in_order() {
    let mut vars = InjectedVars::new();
    assert_eq!(vars.insert("dev", "true".to_string()), None);
    assert_eq!(vars.insert("server_port", "1450".to_string()), None);
    assert_eq!(vars.len(), 2);
    assert_eq!(vars.position("dev"), Some(0));
    assert_eq!(vars.position("server_port"), Some(1));
    assert_eq!(vars.position("other"), None);
    assert_eq!(vars.get("dev"), Some(&"true".to_string()));
    assert_eq!(vars.get("server_port"), Some(&"1450".to_string()));
    assert_eq!(vars.get("other"), None);
}

#[test]
fn insert_replaces_the_value_of_a_key_in_place() {
    let mut vars = vars_of(&[("a", "1"), ("b", "2"), ("c", "3")]);
    assert_eq!(vars.insert("b", "two".to_string()), Some("2".to_string()));
    assert_eq!(vars.len(), 3);
    assert_eq!(vars.position("a"), Some(0));
    assert_eq!(vars.position("b"), Some(1));
    assert_eq!(vars.position("c"), Some(2));
    assert_eq!(vars.get("b"), Some(&"two".to_string()));
    assert_eq!(vars.insert("a", "one".to_string()), Some("1".to_string()));
    assert_eq!(vars.insert("c", "three".to_string()), Some("3".to_string()));
    assert_eq!(
        create_init_script(&vars),
        Ok(script_of("a: 'one',\nb: 'two',\nc: 'three'"))
    );
}

#[test]
fn script_for_dev_mode() {
    let vars = vars_of(&[("dev", "true"), ("server_port", "1450")]);
    assert_eq!(
        create_init_script(&vars),
        Ok("\n        console.log(\"Successfully injected InputShare variables\");\n        window.__INJECTED__ = {\n            dev: 'true',\nserver_port: '1450'\n        };\n    ".to_string())
    );
}

#[test]
fn script_for_an_allocated_port() {
    let vars = vars_of(&[("dev", "false"), ("server_port", "49152")]);
    assert_eq!(
        create_init_script(&vars),
        Ok(script_of("dev: 'false',\nserver_port: '49152'"))
    );
}

#[test]
fn script_without_variables() {
    let vars = InjectedVars::new();
    assert_eq!(create_init_script(&vars), Ok(script_of("")));
}

#[test]
fn script_with_one_variable_has_no_separator() {
    let vars = vars_of(&[("only", "x")]);
    assert_eq!(create_init_script(&vars), Ok(script_of("only: 'x'")));
}

#[test]
fn script_is_the_same_each_time() {
    let vars = vars_of(&[("b", "2"), ("a", "1"), ("c", "3")]);
    let first = create_init_script(&vars);
    let second = create_init_script(&vars);
    assert_eq!(first, second);
    assert_eq!(first, Ok(script_of("b: '2',\na: '1',\nc: '3'")));
}

#[test]
fn script_escapes_values() {
    let vars = vars_of(&[("q", "it's"), ("b", "a\\b"), ("n", "x\ny"), ("c", "\u{1}")]);
    assert_eq!(
        create_init_script(&vars),
        Ok(script_of("q: 'it\\'s',\nb: 'a\\\\b',\nn: 'x\\ny',\nc: '\\u0001'"))
    );
}

#[test]
fn script_keeps_an_injection_inside_its_literal() {
    let payload = "'}; window.__INJECTED__ = {dev: 'true";
    let vars = vars_of(&[("server_port", payload)]);
    let script = create_init_script(&vars).unwrap();
    assert_eq!(
        script,
        script_of("server_port: '\\'}; window.__INJECTED__ = {dev: \\'true'")
    );
    assert_eq!(
        read_back(&script),
        vec![("server_port".to_string(), payload.to_string())]
    );
}

#[test]
fn values_round_trip_through_the_script() {
    let values = [
        "",
        "plain",
        "'",
        "\"",
        "\\",
        "\n",
        "\r\n",
        "\\n",
        "\\'",
        "''''",
        "\\\\\\",
        "a'b\"c\\d\ne\rf\tg",
        "\u{0}\u{1}\u{1f}\u{7f}",
        "\u{2028}\u{2029}",
        "h\u{e9}llo \u{1F600} \u{ffff} \u{10ffff}",
        "',\nfake: 'x",
        "'\n        };\n    ",
        "\\u0041",
    ];
    for (i, value) in values.iter().enumerate() {
        let vars = vars_of(&[("first", "1"), ("value", value), ("last", "2")]);
        let script = create_init_script(&vars).unwrap();
        let fields = read_back(&script);
        assert_eq!(fields.len(), 3, "value {}", i);
        assert_eq!(fields[0], ("first".to_string(), "1".to_string()));
        assert_eq!(fields[1], ("value".to_string(), value.to_string()));
        assert_eq!(fields[2], ("last".to_string(), "2".to_string()));
    }
}

#[test]
fn empty_key_is_rejected() {
    let vars = vars_of(&[("", "x")]);
    assert_eq!(create_init_script(&vars), Err(ConfigError::EmptyKey { index: 0 }));
    assert_eq!(vars.check_keys(), Err(ConfigError::EmptyKey { index: 0 }));
}

#[test]
fn key_with_other_characters_is_rejected() {
    let vars = vars_of(&[("dev", "true"), ("server-port", "1450")]);
    assert_eq!(create_init_script(&vars), Err(ConfigError::InvalidKey { index: 1 }));
    let vars = vars_of(&[("dev", "true"), ("server_port", "1"), ("x: 'y', z", "1450")]);
    assert_eq!(create_init_script(&vars), Err(ConfigError::InvalidKey { index: 2 }));
}

#[test]
fn key_that_starts_with_a_digit_is_rejected() {
    let vars = vars_of(&[("1st", "x")]);
    assert_eq!(create_init_script(&vars), Err(ConfigError::InvalidKey { index: 0 }));
}

#[test]
fn the_first_bad_key_is_reported() {
    let vars = vars_of(&[("ok", "1"), ("a b", "2"), ("", "3"), ("c-d", "4")]);
    assert_eq!(create_init_script(&vars), Err(ConfigError::InvalidKey { index: 1 }));
    let vars = vars_of(&[("ok", "1"), ("", "3"), ("a b", "2")]);
    assert_eq!(create_init_script(&vars), Err(ConfigError::EmptyKey { index: 1 }));
}

#[test]
fn sound_keys_pass_the_check() {
    let vars = vars_of(&[("dev", "true"), ("server_port", "1450"), ("$x_1", "")]);
    assert_eq!(vars.check_keys(), Ok(()));
}

#[test]
fn push_fields_appends_to_what_was_there() {
    let vars = vars_of(&[("a", "1"), ("b", "'")]);
    let mut out = String::from("{");
    vars.push_fields(&mut out);
    assert_eq!(out, "{a: '1',\nb: '\\''");
}
