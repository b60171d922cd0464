use mdp::locale::{language_of, set_lang_vec, strings_for, Language};

#[test]
fn language_from_locale_setting() {
    assert_eq!(language_of("fr_CA.UTF-8"), Language::French);
    assert_eq!(language_of("fr"), Language::French);
    assert_eq!(language_of("es_ES"), Language::Spanish);
    assert_eq!(language_of("en_US.UTF-8"), Language::English);
    assert_eq!(language_of("fra"), Language::English);
    assert_eq!(language_of("f"), Language::English);
    assert_eq!(language_of(""), Language::English);
    assert_eq!(language_of("_fr"), Language::English);
}

#[test]
fn tables_by_language() {
    assert_eq!(set_lang_vec("fr_FR").err_err, "Erreur:");
    assert_eq!(set_lang_vec("es").err_err, "Error:");
    assert_eq!(set_lang_vec("de_DE").mdp_gen_str, "Generated password:");
    assert_eq!(strings_for(Language::Spanish).lang, Language::Spanish);
}
