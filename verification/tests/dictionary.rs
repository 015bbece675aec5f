use i18nx::{render, Arguments, Dictionary};

const GREETINGS: &str = r#"{"Hello": {"de": "Hallo", "fr": "Bonjour"}}"#;

fn plain(dictionary: &Dictionary, template: &str) -> String {
    dictionary.translate(template, &Arguments::Empty).unwrap()
}

fn listing(dictionary: &Dictionary) -> Vec<(String, Vec<(String, String)>)> {
    let mut entries = dictionary.resource.entries();
    for entry in entries.iter_mut() {
        entry.1.sort();
    }
    entries.sort();
    entries
}

fn pair(first: &str, second: &str) -> (String, String) {
    (first.to_string(), second.to_string())
}

#[test]
fn new_dictionary_is_empty() {
    let dictionary = Dictionary::new();
    assert_eq!(dictionary.locale, None);
    assert!(dictionary.resource.entries().is_empty());
    assert_eq!(dictionary.get("Hello"), None);
}

#[test]
fn default_dictionary_is_empty() {
    let dictionary = Dictionary::default();
    assert_eq!(dictionary.locale, None);
    assert!(dictionary.resource.entries().is_empty());
}

#[test]
fn snapshot_leaves_locale_unset() {
    let dictionary = Dictionary::from_ron(GREETINGS).unwrap();
    assert_eq!(dictionary.locale, None);
    assert_eq!(dictionary.get("Hello"), None);
}

#[test]
fn translates_to_the_active_locale() {
    let mut dictionary = Dictionary::from_ron(GREETINGS).unwrap();
    dictionary.locale = Some("de".to_string());
    assert_eq!(plain(&dictionary, "Hello"), "Hallo");
    assert_eq!(dictionary.get("Hello"), Some("Hallo"));
    assert_eq!(dictionary.resolve("Hello"), "Hallo");
}

#[test]
fn falls_back_when_the_locale_has_no_entry() {
    let mut dictionary = Dictionary::from_ron(GREETINGS).unwrap();
    dictionary.locale = Some("cn".to_string());
    assert_eq!(dictionary.get("Hello"), None);
    assert_eq!(dictionary.resolve("Hello"), "Hello");
    assert_eq!(plain(&dictionary, "Hello"), "Hello");
}

#[test]
fn formats_positional_values_without_translation() {
    let dictionary = Dictionary::new();
    let values = Arguments::Positional(vec!["right".to_string(), "happy".to_string()]);
    assert_eq!(
        dictionary.translate("I'd rather be {1} than {0}", &values).unwrap(),
        "I'd rather be happy than right"
    );
}

#[test]
fn formats_named_values_after_merge() {
    let mut dictionary = Dictionary::new();
    dictionary
        .with_ron("ru", r#"{"Hello {name}!": "Привет {name}!"}"#)
        .unwrap();
    dictionary.locale = Some("ru".to_string());
    let values = Arguments::Named(vec![pair("name", "Cargo")]);
    assert_eq!(
        dictionary.translate("Hello {name}!", &values).unwrap(),
        "Привет Cargo!"
    );
}

#[test]
fn malformed_snapshot_is_refused_and_replaces_nothing() {
    let mut dictionary = Dictionary::from_ron(GREETINGS).unwrap();
    dictionary.locale = Some("fr".to_string());
    let before = listing(&dictionary);

    let error = match Dictionary::from_ron(r#"{"Hello": {"de": "Hallo"}"#) {
        Ok(replacement) => {
            dictionary = replacement;
            panic!("an unbalanced snapshot was accepted");
        }
        Err(error) => error,
    };
    assert_eq!(error.message, "Expected comma");
    assert_eq!((error.line, error.column), (1, 26));
    assert_eq!(listing(&dictionary), before);
    assert_eq!(dictionary.locale, Some("fr".to_string()));
    assert_eq!(dictionary.get("Hello"), Some("Bonjour"));
}

#[test]
fn snapshot_errors_carry_their_position() {
    let error = Dictionary::from_ron("{\n  \"Hello\": {\n    \"de\": 5,\n  },\n}")
        .err()
        .unwrap();
    assert_eq!(error.message, "Expected string");
    assert_eq!((error.line, error.column), (3, 11));

    let trailing = Dictionary::from_ron(r#"{"Hello": {"de": "Hallo"}}}"#).err().unwrap();
    assert_eq!(trailing.message, "Non-whitespace trailing characters");
    assert_eq!((trailing.line, trailing.column), (1, 27));
}

#[test]
fn snapshot_must_have_two_levels() {
    let error = Dictionary::from_ron(r#"{"Hello": "Hallo"}"#).err().unwrap();
    assert_eq!(error.message, "Expected opening `{`");
    assert!(Dictionary::from_ron("").is_err());
}

#[test]
fn untranslated_template_is_rendered_as_is() {
    let dictionary = Dictionary::new();
    let values = Arguments::Positional(vec!["a".to_string()]);
    for template in ["plain", "{0} and {0}", "missing {1}", "broken {"] {
        assert_eq!(dictionary.get(template), None);
        assert_eq!(
            dictionary.translate(template, &values).ok(),
            render(template, &values).ok()
        );
    }
    assert_eq!(dictionary.translate("{0} and {0}", &values).unwrap(), "a and a");
}

#[test]
fn merged_text_is_found_under_its_locale() {
    let mut dictionary = Dictionary::new();
    dictionary.with_ron("pt", r#"{"Good night": "Boa noite"}"#).unwrap();
    dictionary.locale = Some("pt".to_string());
    assert_eq!(dictionary.get("Good night"), Some("Boa noite"));
}

#[test]
fn merging_a_second_locale_keeps_the_first() {
    let mut dictionary = Dictionary::new();
    dictionary.with_ron("ru", r#"{"Hello": "Привет"}"#).unwrap();
    dictionary.with_ron("cn", r#"{"Hello": "你好"}"#).unwrap();
    dictionary.locale = Some("ru".to_string());
    assert_eq!(dictionary.get("Hello"), Some("Привет"));
    dictionary.locale = Some("cn".to_string());
    assert_eq!(dictionary.get("Hello"), Some("你好"));
}

#[test]
fn merging_keeps_the_locales_of_a_snapshot() {
    let mut dictionary = Dictionary::from_ron(GREETINGS).unwrap();
    dictionary.with_ron("ru", r#"{"Hello": "Привет", "Bye": "Пока"}"#).unwrap();
    assert_eq!(
        listing(&dictionary),
        vec![
            ("Bye".to_string(), vec![pair("ru", "Пока")]),
            (
                "Hello".to_string(),
                vec![pair("de", "Hallo"), pair("fr", "Bonjour"), pair("ru", "Привет")]
            ),
        ]
    );
}

#[test]
fn merging_twice_is_merging_once() {
    let table = r#"{"Hello": "Привет", "Bye": "Пока"}"#;
    let mut once = Dictionary::from_ron(GREETINGS).unwrap();
    once.with_ron("ru", table).unwrap();
    let mut twice = Dictionary::from_ron(GREETINGS).unwrap();
    twice.with_ron("ru", table).unwrap();
    twice.with_ron("ru", table).unwrap();
    assert_eq!(listing(&once), listing(&twice));
    assert_eq!(once.resource.entries(), twice.resource.entries());
}

#[test]
fn merging_replaces_the_text_of_the_same_locale() {
    let mut dictionary = Dictionary::from_ron(GREETINGS).unwrap();
    dictionary.with_ron("de", r#"{"Hello": "Servus"}"#).unwrap();
    dictionary.locale = Some("de".to_string());
    assert_eq!(dictionary.get("Hello"), Some("Servus"));
    dictionary.locale = Some("fr".to_string());
    assert_eq!(dictionary.get("Hello"), Some("Bonjour"));
}

#[test]
fn malformed_locale_table_changes_nothing() {
    let mut dictionary = Dictionary::from_ron(GREETINGS).unwrap();
    dictionary.locale = Some("de".to_string());
    let before = listing(&dictionary);
    let error = dictionary.with_ron("ru", r#"{"Hello" "Привет"}"#).err().unwrap();
    assert_eq!(error.message, "Expected colon");
    assert_eq!((error.line, error.column), (1, 10));
    assert_eq!(listing(&dictionary), before);
    assert_eq!(dictionary.locale, Some("de".to_string()));
}

#[test]
fn locale_table_must_have_one_level() {
    let mut dictionary = Dictionary::new();
    assert!(dictionary.with_ron("de", GREETINGS).is_err());
    assert!(dictionary.resource.entries().is_empty());
}

#[test]
fn merges_can_be_chained() {
    let mut dictionary = Dictionary::new();
    dictionary
        .with_ron("de", r#"{"Yes": "Ja"}"#)
        .unwrap()
        .with_ron("fr", r#"{"Yes": "Oui"}"#)
        .unwrap()
        .locale = Some("fr".to_string());
    assert_eq!(dictionary.get("Yes"), Some("Oui"));
}

#[test]
fn listing_gives_back_what_was_read() {
    let dictionary = Dictionary::from_ron(
        r#"{
            "b": {"z": "1", "y": "2",},
            "a": {},
        }"#,
    )
    .unwrap();
    assert_eq!(
        listing(&dictionary),
        vec![
            ("a".to_string(), vec![]),
            ("b".to_string(), vec![pair("y", "2"), pair("z", "1")]),
        ]
    );
}

#[test]
fn later_entry_of_a_snapshot_replaces_an_earlier_one() {
    let dictionary =
        Dictionary::from_ron(r#"{"a": {"x": "1"}, "a": {"y": "2"}}"#).unwrap();
    assert_eq!(
        dictionary.resource.entries(),
        vec![("a".to_string(), vec![pair("y", "2")])]
    );
}

#[test]
fn later_entry_of_a_locale_table_replaces_an_earlier_one() {
    let mut dictionary = Dictionary::new();
    dictionary.with_ron("de", r#"{"a": "1", "a": "2"}"#).unwrap();
    dictionary.locale = Some("de".to_string());
    assert_eq!(dictionary.get("a"), Some("2"));
}

#[test]
fn template_without_translations_falls_back() {
    let mut dictionary = Dictionary::from_ron(r#"{"Hello": {}}"#).unwrap();
    dictionary.locale = Some("de".to_string());
    assert_eq!(dictionary.get("Hello"), None);
    assert_eq!(plain(&dictionary, "Hello"), "Hello");
    assert_eq!(
        dictionary.resource.entries(),
        vec![("Hello".to_string(), vec![])]
    );
}

#[test]
fn locale_identifiers_are_compared_exactly() {
    let mut dictionary = Dictionary::from_ron(GREETINGS).unwrap();
    dictionary.locale = Some("FR".to_string());
    assert_eq!(dictionary.get("Hello"), None);
    dictionary.locale = Some("fr-CA".to_string());
    assert_eq!(dictionary.get("Hello"), None);
    dictionary.locale = Some("fr".to_string());
    assert_eq!(dictionary.get("Hello"), Some("Bonjour"));
}

#[test]
fn escapes_in_a_table_are_decoded() {
    let mut dictionary = Dictionary::new();
    dictionary.with_ron("fr", r#"{"a\n": "1\u{e9}"}"#).unwrap();
    dictionary.locale = Some("fr".to_string());
    assert_eq!(dictionary.get("a\n"), Some("1é"));
}

#[test]
fn translation_errors_come_from_the_translated_template() {
    let mut dictionary = Dictionary::new();
    dictionary.with_ron("de", r#"{"Hello": "Hallo {name}"}"#).unwrap();
    assert_eq!(plain(&dictionary, "Hello"), "Hello");
    dictionary.locale = Some("de".to_string());
    let error = dictionary.translate("Hello", &Arguments::Empty).err().unwrap();
    assert!(matches!(
        error,
        i18nx::FormatError::MissingArgument { ref name, offset: 6 } if name == "name"
    ));
}
