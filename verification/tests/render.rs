use i18nx::limits::{has_short_numbers, survey};
use i18nx::{can_render, render, Arguments, FormatError};

fn positional(values: &[&str]) -> Arguments {
    Arguments::Positional(values.iter().map(|value| value.to_string()).collect())
}

fn named(pairs: &[(&str, &str)]) -> Arguments {
    Arguments::Named(
        pairs
            .iter()
            .map(|(name, value)| (name.to_string(), value.to_string()))
            .collect(),
    )
}

#[test]
fn renders_text_without_placeholders_unchanged() {
    assert_eq!(render("Hello", &Arguments::Empty).unwrap(), "Hello");
    assert_eq!(render("", &Arguments::Empty).unwrap(), "");
    assert_eq!(render("Привет, 你好", &positional(&["unused"])).unwrap(), "Привет, 你好");
}

#[test]
fn renders_positional_values() {
    let values = positional(&["right", "happy"]);
    assert_eq!(
        render("I'd rather be {1} than {0}", &values).unwrap(),
        "I'd rather be happy than right"
    );
    assert_eq!(render("{} {}", &values).unwrap(), "right happy");
    assert_eq!(render("{0}{0}{1}", &values).unwrap(), "rightrighthappy");
}

#[test]
fn renders_named_values() {
    let values = named(&[("name", "Cargo"), ("greeting", "Hi")]);
    assert_eq!(render("{greeting} {name}!", &values).unwrap(), "Hi Cargo!");
    assert_eq!(render("{name}", &named(&[("name", "a"), ("name", "b")])).unwrap(), "a");
}

#[test]
fn doubled_braces_render_as_single_ones() {
    assert_eq!(render("{{}}", &Arguments::Empty).unwrap(), "{}");
    assert_eq!(render("{{{0}}}", &positional(&["x"])).unwrap(), "{x}");
    assert_eq!(render("{{123456}}", &Arguments::Empty).unwrap(), "{123456}");
}

#[test]
fn applies_format_specs() {
    let values = positional(&["ab"]);
    assert_eq!(render("[{:>5}]", &values).unwrap(), "[   ab]");
    assert_eq!(render("[{:<5}]", &values).unwrap(), "[ab   ]");
    assert_eq!(render("[{:*^6}]", &values).unwrap(), "[**ab**]");
    assert_eq!(render("[{:.1}]", &values).unwrap(), "[a]");
    assert_eq!(render("[{:?}]", &values).unwrap(), "[\"ab\"]");
    assert_eq!(render("{0:>1$}", &positional(&["x", "5"])).unwrap(), "    x");
    assert_eq!(render("{text:>width$}", &named(&[("text", "x"), ("width", "3")])).unwrap(), "  x");
}

#[test]
fn widest_accepted_spec_is_rendered() {
    let wide = render("{:9999}", &positional(&["x"])).unwrap();
    assert_eq!(wide.len(), 9999);
    assert!(wide.starts_with('x'));
    assert_eq!(render("{:.9999}", &positional(&["xyz"])).unwrap(), "xyz");
}

#[test]
fn malformed_template_is_reported() {
    match render("{", &Arguments::Empty) {
        Err(FormatError::Malformed { offset, message }) => {
            assert_eq!(offset, 1);
            assert_eq!(message, "unexpected end of format string");
        }
        other => panic!("unexpected result {:?}", other),
    }
    match render("so } it goes", &Arguments::Empty) {
        Err(FormatError::Malformed { offset, message }) => {
            assert_eq!(offset, 3);
            assert_eq!(message, "unmatched `}`");
        }
        other => panic!("unexpected result {:?}", other),
    }
}

#[test]
fn missing_argument_is_reported() {
    match render("Hello {name}!", &Arguments::Empty) {
        Err(FormatError::MissingArgument { name, offset }) => {
            assert_eq!(name, "name");
            assert_eq!(offset, 6);
        }
        other => panic!("unexpected result {:?}", other),
    }
    match render("{0} {2}", &positional(&["a", "b"])) {
        Err(FormatError::MissingArgument { name, offset }) => {
            assert_eq!(name, "2");
            assert_eq!(offset, 4);
        }
        other => panic!("unexpected result {:?}", other),
    }
    match render("{12345}", &positional(&["a"])) {
        Err(FormatError::MissingArgument { name, offset }) => {
            assert_eq!(name, "12345");
            assert_eq!(offset, 0);
        }
        other => panic!("unexpected result {:?}", other),
    }
}

#[test]
fn unsupported_rendering_is_reported() {
    match render("ab {:x}", &positional(&["ff"])) {
        Err(FormatError::Unrenderable { placeholder }) => assert_eq!(placeholder, Some(3)),
        other => panic!("unexpected result {:?}", other),
    }
}

#[test]
fn long_numbers_in_format_specs_are_refused() {
    for template in ["{:12345}", "{:70000}", "{:.70000}", "{:<70000}", "{0:09999}", "a {name:>10000} b"] {
        assert!(matches!(
            render(template, &named(&[("name", "x")])),
            Err(FormatError::NumberTooLong)
        ));
        assert!(!can_render(template, &Arguments::Empty));
    }
}

#[test]
fn long_numbers_in_borrowed_values_are_refused() {
    let long = positional(&["x", "70000"]);
    assert!(matches!(render("{0:>1$}", &long), Err(FormatError::NumberTooLong)));
    assert!(matches!(render("{0:.*}", &long), Err(FormatError::NumberTooLong)));
    assert!(matches!(
        render("{text:w$}", &named(&[("text", "x"), ("w", "+00070")])),
        Err(FormatError::NumberTooLong)
    ));
    // A value with a long number is fine where no spec borrows a count.
    assert_eq!(render("{1} {0}", &long).unwrap(), "70000 x");
    assert_eq!(render("{1:>6}", &long).unwrap(), " 70000");
}

#[test]
fn long_numbers_outside_format_specs_are_text() {
    assert_eq!(
        render("Order 1234567 for {0}", &positional(&["Ann"])).unwrap(),
        "Order 1234567 for Ann"
    );
    assert_eq!(render("$100000 * {0}", &positional(&["2"])).unwrap(), "$100000 * 2");
    assert!(can_render("}123456{", &Arguments::Empty));
}

#[test]
fn can_render_follows_the_limits() {
    assert!(can_render("", &Arguments::Empty));
    assert!(can_render("{:9999}", &Arguments::Empty));
    assert!(!can_render("{:10000}", &Arguments::Empty));
    assert!(can_render("{0:1$}", &positional(&["12345678", "1234"])) == false);
    assert!(can_render("{0:1$}", &positional(&["1234", "1234"])));
    assert!(can_render("{0:1$}", &Arguments::Empty));
    assert!(can_render("{a:b$}", &named(&[("12345", "1234")])));
    assert!(!can_render("{a:b$}", &named(&[("a", "1234"), ("b", "12345")])));
}

#[test]
fn survey_reads_format_specs_only() {
    assert_eq!(survey(""), Some(false));
    assert_eq!(survey("plain $ * 123456"), Some(false));
    assert_eq!(survey("{123456} {a}"), Some(false));
    assert_eq!(survey("{:1234}"), Some(false));
    assert_eq!(survey("{:12345}"), None);
    assert_eq!(survey("{0:1$}"), Some(true));
    assert_eq!(survey("{:.*}"), Some(true));
    assert_eq!(survey("{{:12345$}}"), Some(false));
    assert_eq!(survey("{{{:12345$}}}"), None);
    assert_eq!(survey("{{{:1234$}}}"), Some(true));
    assert_eq!(survey("{:12}34567{:$}"), Some(true));
    assert_eq!(survey("{::12345}"), None);
    assert_eq!(survey("{:1234é5678}"), Some(false));
    assert_eq!(survey("{}:12345 {a}$"), Some(false));
}

#[test]
fn has_short_numbers_counts_digit_runs() {
    assert!(has_short_numbers(""));
    assert!(has_short_numbers("1234"));
    assert!(!has_short_numbers("12345"));
    assert!(has_short_numbers("1234a5678"));
    assert!(!has_short_numbers("ab00000"));
    assert!(has_short_numbers("١٢٣٤٥٦"));
}

#[test]
fn render_answers_every_short_template() {
    let alphabet = ["{", "}", ":", ".", "*", "$", "0", "9", "a", "<", "+", "#", "?", "x", "é"];
    let sets = [
        Arguments::Empty,
        positional(&["7", "text"]),
        named(&[("a", "3"), ("x", "text")]),
    ];
    let mut templates = vec![String::new()];
    let mut answered = 0usize;
    for _ in 0..4 {
        let mut longer = Vec::new();
        for template in &templates {
            for letter in alphabet {
                longer.push(format!("{}{}", template, letter));
            }
        }
        for template in &longer {
            for arguments in &sets {
                match render(template, arguments) {
                    Ok(text) => assert!(text.len() <= 10_000),
                    Err(_) => {}
                }
                answered += 1;
            }
        }
        templates = longer;
    }
    assert_eq!(answered, 3 * (15 + 225 + 3375 + 50625));
}
