use ethervoid::attackscript::{get_attacks, AttackScriptBuilder};
use ethervoid::config::{config_parses, keycode_in_config, get_keycode, get_mousebutton, parse_keycode, parse_mousebutton, Binding, Key, KeyCode, MouseButton};
use ethervoid::cores::{cores_changed, gen_lang_name, gen_name, split_dir, FileTimes};
use ethervoid::doors::{find_return_door, Direction, ReturnDoor};

#[test]
fn opposing_directions() {
    assert!(Direction::North.is_opposing(&Direction::South));
    assert!(Direction::South.is_opposing(&Direction::North));
    assert!(Direction::East.is_opposing(&Direction::West));
    assert!(Direction::West.is_opposing(&Direction::East));
    assert!(!Direction::North.is_opposing(&Direction::North));
    assert!(!Direction::North.is_opposing(&Direction::East));
    assert!(!Direction::West.is_opposing(&Direction::South));
    assert!(!Direction::East.is_opposing(&Direction::East));
}

#[test]
fn return_door_is_first_leading_back() {
    let doors = vec![
        (Direction::East, "default:cave".to_string()),
        (Direction::South, "default:test".to_string()),
        (Direction::West, "default:test".to_string()),
    ];
    let current = "default:test".to_string();
    assert_eq!(find_return_door(Direction::North, &doors, &current), ReturnDoor::Found(1));
    assert_eq!(find_return_door(Direction::East, &doors, &current), ReturnDoor::Mismatched(1));
    assert_eq!(find_return_door(Direction::North, &doors, &"default:other".to_string()), ReturnDoor::Missing);
    assert_eq!(find_return_door(Direction::North, &vec![], &current), ReturnDoor::Missing);
}

#[test]
fn keycodes_from_names() {
    assert_eq!(parse_keycode("Escape"), Some(KeyCode::Escape));
    assert_eq!(parse_keycode("W"), Some(KeyCode::W));
    assert_eq!(parse_keycode("LeftShift"), Some(KeyCode::LeftShift));
    assert_eq!(parse_keycode("F"), Some(KeyCode::F));
    assert_eq!(parse_keycode("G"), Some(KeyCode::G));
    assert_eq!(parse_keycode("LeftAlt"), Some(KeyCode::LeftAlt));
    assert_eq!(parse_keycode("LeftControl"), Some(KeyCode::LeftControl));
    assert_eq!(get_keycode(Some("F")), KeyCode::F);
    assert_eq!(get_keycode(Some("G")), KeyCode::G);
    assert_eq!(get_keycode(Some("LeftAlt")), KeyCode::LeftAlt);
    assert_eq!(parse_keycode("escape"), None);
    assert_eq!(parse_keycode(""), None);
    assert_eq!(parse_keycode("Left Click"), None);
    assert_eq!(get_keycode(Some("Slash")), KeyCode::Slash);
}

#[test]
fn mouse_buttons_from_names() {
    assert_eq!(parse_mousebutton("Left Click"), Some(MouseButton::Left));
    assert_eq!(parse_mousebutton("Right Click"), Some(MouseButton::Right));
    assert_eq!(parse_mousebutton("Middle Click"), Some(MouseButton::Middle));
    assert_eq!(parse_mousebutton("Left"), None);
    assert_eq!(get_mousebutton(Some("Right Click")), MouseButton::Right);
}

#[test]
fn key_bindings() {
    let k = Key::new("Left Click".to_string());
    assert!(k.is_mouse());
    assert_eq!(k.binding(), Some(Binding::Mouse(MouseButton::Left)));
    assert_eq!(k.name(), "Left Click");
    let k = Key::new("Up".to_string());
    assert!(!k.is_mouse());
    assert_eq!(k.binding(), Some(Binding::Keyboard(KeyCode::Up)));
    let k = Key::new("Space".to_string());
    assert_eq!(k.binding(), None);
}

#[test]
fn names_of_core_files() {
    assert_eq!(gen_name("./cores/default/sprites/ui/hp.png"), "default:ui/hp");
    assert_eq!(gen_name("./cores/default/maps/test.ron"), "default:test");
    assert_eq!(gen_name("./cores/mod/attacks/a/b/c.rhai"), "mod:a/b/c");
    assert_eq!(gen_name(".\\cores\\default\\npcs\\bob.ron"), "default:bob");
    // Too short for a name after the core.
    assert_eq!(gen_name("./cores/default"), "default:");
    assert_eq!(gen_name("./cores/default/x"), "default:");
}

#[test]
fn names_of_languages() {
    assert_eq!(gen_lang_name("./cores/default/lang/en.ron"), "en");
    assert_eq!(gen_lang_name("./cores/default/lang/sub/fr.ron"), "fr");
    assert_eq!(gen_lang_name("en"), "");
    assert_eq!(gen_lang_name(""), "");
    assert_eq!(gen_lang_name("a.b"), "a");
}

#[test]
fn splitting_paths() {
    assert_eq!(split_dir("a/b.c"), vec![(0, 1), (2, 3), (4, 5)]);
    assert_eq!(split_dir(""), vec![(0, 0)]);
    assert_eq!(split_dir("//"), vec![(0, 0), (1, 1), (2, 2)]);
    assert_eq!(split_dir("é/ü"), vec![(0, 1), (2, 3)]);
}

#[test]
fn attacks_keyed_by_name() {
    let files = vec![
        ("./cores/default/attacks/slash.rhai".to_string(), "one".to_string()),
        ("./cores/default/attacks/dash.rhai".to_string(), "two".to_string()),
        ("./cores/default/attacks/slash.rhai".to_string(), "three".to_string()),
    ];
    let attacks = get_attacks(&files);
    assert_eq!(attacks.len(), 2);
    let find = |name: &str| attacks.iter().find(|(n, _)| n == name).map(|(_, b)| b.script().to_string());
    assert_eq!(find("default:slash"), Some("three".to_string()));
    assert_eq!(find("default:dash"), Some("two".to_string()));
    assert_eq!(find("default:other"), None);
    assert!(get_attacks(&vec![]).is_empty());
    assert_eq!(AttackScriptBuilder::new("x".to_string()).script(), "x");
}

fn times(entries: &[(&str, u128)]) -> FileTimes {
    let mut t = FileTimes::new();
    for (path, modified) in entries {
        t.insert(path.to_string(), *modified);
    }
    t
}

#[test]
fn cores_change_detection() {
    let mut seen = FileTimes::new();
    assert!(cores_changed(&mut seen, Some(times(&[("./cores/a.ron", 5)]))));
    assert!(!cores_changed(&mut seen, Some(times(&[("./cores/a.ron", 5)]))));
    assert!(cores_changed(&mut seen, Some(times(&[("./cores/a.ron", 6)]))));
    assert!(cores_changed(&mut seen, None));
    assert!(!cores_changed(&mut seen, Some(times(&[("./cores/a.ron", 6)]))));
    assert!(cores_changed(&mut seen, Some(times(&[("./cores/a.ron", 6), ("./cores/b.ron", 6)]))));
    assert!(cores_changed(&mut seen, Some(FileTimes::new())));
    assert!(!cores_changed(&mut seen, Some(FileTimes::new())));
}

#[test]
fn keycodes_from_json_config() {
    let config = r#"{"dash": "F", "gun": "G", "alt": "LeftAlt", "count": 3, "bad": "Nope"}"#;
    assert!(config_parses(config));
    assert_eq!(keycode_in_config(config, "dash"), Some(KeyCode::F));
    assert_eq!(keycode_in_config(config, "gun"), Some(KeyCode::G));
    assert_eq!(keycode_in_config(config, "alt"), Some(KeyCode::LeftAlt));
    assert_eq!(keycode_in_config(config, "count"), None);
    assert_eq!(keycode_in_config(config, "bad"), None);
    assert_eq!(keycode_in_config(config, "missing"), None);
    assert!(!config_parses("{not json"));
    assert_eq!(keycode_in_config("{not json", "dash"), None);
    assert_eq!(keycode_in_config(r#"["F"]"#, "dash"), None);
}
