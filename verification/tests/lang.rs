use ethervoid::lang::{get_langs, Lang};

fn lang(pairs: &[(&str, &str)]) -> Lang {
    let mut l = Lang::new();
    for (k, v) in pairs {
        l.insert(k.to_string(), v.to_string());
    }
    l
}

fn text(l: &Lang, key: &str) -> Option<String> {
    l.get(&key.to_string()).cloned()
}

#[test]
fn lang_insert_and_get() {
    let mut l = lang(&[("hello", "Hello"), ("bye", "Bye")]);
    assert_eq!(text(&l, "hello"), Some("Hello".to_string()));
    l.insert("hello".to_string(), "Hi".to_string());
    assert_eq!(text(&l, "hello"), Some("Hi".to_string()));
    assert_eq!(l.len(), 2);
    assert_eq!(text(&l, "missing"), None);
}

#[test]
fn lang_extend_prefers_new_texts() {
    let mut l = lang(&[("a", "1"), ("b", "2")]);
    l.extend(lang(&[("b", "3"), ("c", "4")]));
    assert_eq!(text(&l, "a"), Some("1".to_string()));
    assert_eq!(text(&l, "b"), Some("3".to_string()));
    assert_eq!(text(&l, "c"), Some("4".to_string()));
    assert_eq!(l.len(), 3);
}

#[test]
fn langs_merge_by_language() {
    let files = vec![
        ("./cores/default/lang/en.ron".to_string(), lang(&[("a", "A"), ("b", "B")])),
        ("./cores/default/lang/fr.ron".to_string(), lang(&[("a", "Ah")])),
        ("./cores/extra/lang/en.ron".to_string(), lang(&[("b", "Bee"), ("c", "C")])),
    ];
    let langs = get_langs(files);
    assert_eq!(langs.len(), 2);
    let en = langs.get(&"en".to_string()).unwrap();
    let fr = langs.get(&"fr".to_string()).unwrap();
    assert_eq!(text(en, "a"), Some("A".to_string()));
    assert_eq!(text(en, "b"), Some("Bee".to_string()));
    assert_eq!(text(en, "c"), Some("C".to_string()));
    assert_eq!(text(fr, "a"), Some("Ah".to_string()));
    assert_eq!(text(fr, "b"), None);
    assert!(langs.get(&"de".to_string()).is_none());
    assert_eq!(get_langs(vec![]).len(), 0);
}
