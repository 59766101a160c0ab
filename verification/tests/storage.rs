use battlegroup_data::app_data::systems::System;
use battlegroup_data::app_data::tags::Tag;
use battlegroup_data::app_data::weapons::{Weapon, WeaponClass, WeaponTargeting};
use battlegroup_data::app_data::AppData;
use battlegroup_data::document::{Json, Member};
use serde_json::Value;

fn to_value(doc: &Json) -> Value {
    match doc {
        Json::Null => Value::Null,
        Json::Bool(truth) => Value::Bool(*truth),
        Json::Int(number) => Value::from(*number),
        Json::Real => Value::from(0.5),
        Json::Str(text) => Value::String(text.clone()),
        Json::Array(items) => Value::Array(items.iter().map(to_value).collect()),
        Json::Object(members) => Value::Object(
            members.iter().map(|member| (member.key.clone(), to_value(&member.value))).collect(),
        ),
    }
}

fn from_value(value: &Value) -> Json {
    match value {
        Value::Null => Json::Null,
        Value::Bool(truth) => Json::Bool(*truth),
        Value::Number(number) => match number.as_i64() {
            Some(whole) => Json::Int(whole),
            None => Json::Real,
        },
        Value::String(text) => Json::Str(text.clone()),
        Value::Array(items) => Json::Array(items.iter().map(from_value).collect()),
        Value::Object(members) => Json::Object(
            members
                .iter()
                .map(|(key, value)| Member { key: key.clone(), value: from_value(value) })
                .collect(),
        ),
    }
}

fn written(catalog: &AppData) -> String {
    serde_json::to_string(&to_value(&catalog.save())).unwrap()
}

fn parsed(text: &str) -> Json {
    from_value(&serde_json::from_str::<Value>(text).unwrap())
}

fn read(text: &str) -> Option<AppData> {
    AppData::load(&parsed(text))
}

fn tag(name: &str, fluff: &str) -> Tag {
    Tag { name: name.to_string(), fluff: fluff.to_string() }
}

fn tags_of(names: &[&str]) -> Vec<String> {
    names.iter().map(|name| name.to_string()).collect()
}

fn sample() -> AppData {
    AppData {
        tag_db: vec![tag("Fast", "+1"), tag("X", ""), tag("X", "second"), tag("", "blank")],
        weapons: vec![
            Weapon {
                name: "Lance \"Mk II\"".to_string(),
                fluff: "A long\nbeam \\ of light".to_string(),
                cost: -5,
                class: WeaponClass::Superheavy,
                targeting: WeaponTargeting::Area,
                tags: tags_of(&["X", "Fast", "gone", "X"]),
                range_min: 5,
                range_max: 0,
                damage: "2d6".to_string(),
                rules: "Ünïcödé 中 😀\ttab".to_string(),
            },
            Weapon::default(),
            Weapon { class: WeaponClass::Auxiliary, cost: 10, ..Weapon::default() },
        ],
        systems: vec![
            System {
                name: "Shield".to_string(),
                fluff: String::new(),
                cost: 3,
                limited: Some(4),
                tags: tags_of(&["Fast"]),
                rules: "Absorbs one hit.".to_string(),
            },
            System::default(),
        ],
    }
}

#[test]
fn empty_catalog_is_written_as_three_empty_lists() {
    assert_eq!(written(&AppData::default()), r#"{"tag_db":[],"weapons":[],"systems":[]}"#);
}

#[test]
fn one_tag_and_one_weapon_are_written_field_by_field() {
    let catalog = AppData {
        tag_db: vec![tag("Fast", "+1")],
        weapons: vec![Weapon { tags: tags_of(&["Fast"]), ..Weapon::default() }],
        systems: Vec::new(),
    };
    assert_eq!(
        written(&catalog),
        concat_all(&[
            r#"{"tag_db":[{"name":"Fast","fluff":"+1"}],"#,
            r#""weapons":[{"name":"","fluff":"","cost":0,"class":"Primary","#,
            r#""targeting":"SingleTarget","tags":["Fast"],"range_min":0,"range_max":0,"#,
            r#""damage":"","rules":""}],"#,
            r#""systems":[]}"#,
        ])
    );
}

fn concat_all(parts: &[&str]) -> String {
    parts.iter().map(|part| part.to_string()).collect()
}

#[test]
fn dangling_reference_is_written_verbatim() {
    let catalog = AppData {
        tag_db: vec![tag("Quick", "+1")],
        weapons: vec![Weapon { tags: tags_of(&["Fast"]), ..Weapon::default() }],
        systems: Vec::new(),
    };
    let text = written(&catalog);
    assert!(text.contains(r#""tags":["Fast"]"#));
    assert!(text.contains(r#"{"name":"Quick","fluff":"+1"}"#));
    assert_eq!(read(&text), Some(catalog));
}

#[test]
fn system_without_a_limit_is_written_with_null() {
    let catalog = AppData { systems: vec![System::default()], ..AppData::default() };
    assert_eq!(
        written(&catalog),
        concat_all(&[
            r#"{"tag_db":[],"weapons":[],"systems":["#,
            r#"{"name":"","fluff":"","cost":0,"limited":null,"tags":[],"rules":""}]}"#,
        ])
    );
}

#[test]
fn limited_system_is_written_with_its_count() {
    let system = System { limited: Some(4), ..System::default() };
    assert_eq!(
        serde_json::to_string(&to_value(&system.save())).unwrap(),
        r#"{"name":"","fluff":"","cost":0,"limited":4,"tags":[],"rules":""}"#
    );
}

#[test]
fn enumerations_are_written_by_member_name() {
    let weapon = Weapon {
        class: WeaponClass::Auxiliary,
        targeting: WeaponTargeting::Area,
        ..Weapon::default()
    };
    let text = serde_json::to_string(&to_value(&weapon.save())).unwrap();
    assert!(text.contains(r#""class":"Auxiliary""#));
    assert!(text.contains(r#""targeting":"Area""#));
    let weapon = Weapon { class: WeaponClass::Superheavy, ..Weapon::default() };
    let text = serde_json::to_string(&to_value(&weapon.save())).unwrap();
    assert!(text.contains(r#""class":"Superheavy""#));
    assert!(text.contains(r#""targeting":"SingleTarget""#));
}

#[test]
fn tag_document_holds_name_then_fluff() {
    assert_eq!(
        tag("Fast", "+1").save(),
        Json::Object(vec![
            Member { key: "name".to_string(), value: Json::Str("Fast".to_string()) },
            Member { key: "fluff".to_string(), value: Json::Str("+1".to_string()) },
        ])
    );
}

#[test]
fn catalog_is_read_back_as_it_was() {
    let catalog = sample();
    assert_eq!(AppData::load(&catalog.save()), Some(catalog.clone()));
    assert_eq!(read(&written(&catalog)), Some(catalog));
}

#[test]
fn empty_catalog_is_read_back_as_it_was() {
    assert_eq!(read(&written(&AppData::default())), Some(AppData::default()));
}

#[test]
fn order_is_kept_across_writing_and_reading() {
    let catalog = sample();
    let back = read(&written(&catalog)).unwrap();
    let names: Vec<&str> = back.tag_db.iter().map(|entry| entry.name.as_str()).collect();
    assert_eq!(names, vec!["Fast", "X", "X", ""]);
    assert_eq!(back.tag_db[1].fluff, "");
    assert_eq!(back.tag_db[2].fluff, "second");
    assert_eq!(back.weapons[0].tags, tags_of(&["X", "Fast", "gone", "X"]));
    assert_eq!(back.weapons[2].class, WeaponClass::Auxiliary);
    assert_eq!(back.systems[0].name, "Shield");
    assert_eq!(back.systems[1], System::default());
}

#[test]
fn numbers_beyond_their_sliders_are_read_as_they_are() {
    let catalog = AppData {
        weapons: vec![Weapon {
            cost: i32::MAX,
            range_min: i32::MIN,
            range_max: 77,
            ..Weapon::default()
        }],
        systems: vec![System { cost: -100, limited: Some(0), ..System::default() }],
        ..AppData::default()
    };
    assert_eq!(read(&written(&catalog)), Some(catalog));
}

#[test]
fn absent_members_take_their_defaults() {
    assert_eq!(read("{}"), Some(AppData::default()));
    assert_eq!(
        read(r#"{"tag_db":[{}],"weapons":[{}],"systems":[{}]}"#),
        Some(AppData {
            tag_db: vec![Tag::default()],
            weapons: vec![Weapon::default()],
            systems: vec![System::default()],
        })
    );
    assert_eq!(
        read(r#"{"weapons":[{"name":"Lance","cost":3}]}"#),
        Some(AppData {
            weapons: vec![Weapon { name: "Lance".to_string(), cost: 3, ..Weapon::default() }],
            ..AppData::default()
        })
    );
}

#[test]
fn unknown_members_are_passed_over() {
    let text = concat_all(&[
        r#"{"version":7,"tag_db":[{"colour":"red","name":"Fast","fluff":"+1","n":[1,2]}],"#,
        r#""ships":[{"name":"Ship1"}],"#,
        r#""systems":[{"maneuvers":null,"name":"Shield","limited":2,"x":{"y":1.5}}]}"#,
    ]);
    assert_eq!(
        read(&text),
        Some(AppData {
            tag_db: vec![tag("Fast", "+1")],
            weapons: Vec::new(),
            systems: vec![System {
                name: "Shield".to_string(),
                limited: Some(2),
                ..System::default()
            }],
        })
    );
}

#[test]
fn members_are_read_in_any_order() {
    assert_eq!(
        read(r#"{"systems":[],"tag_db":[{"fluff":"+1","name":"Fast"}]}"#),
        Some(AppData { tag_db: vec![tag("Fast", "+1")], ..AppData::default() })
    );
}

#[test]
fn limit_is_read_from_null_or_a_number() {
    let limited = |text: &str| read(text).map(|catalog| catalog.systems[0].limited);
    assert_eq!(limited(r#"{"systems":[{"limited":null}]}"#), Some(None));
    assert_eq!(limited(r#"{"systems":[{}]}"#), Some(None));
    assert_eq!(limited(r#"{"systems":[{"limited":1}]}"#), Some(Some(1)));
    assert_eq!(limited(r#"{"systems":[{"limited":5}]}"#), Some(Some(5)));
    assert_eq!(limited(r#"{"systems":[{"limited":"1"}]}"#), None);
    assert_eq!(limited(r#"{"systems":[{"limited":false}]}"#), None);
    assert_eq!(limited(r#"{"systems":[{"limited":2.5}]}"#), None);
    assert_eq!(limited(r#"{"systems":[{"limited":2147483648}]}"#), None);
}

#[test]
fn document_that_is_no_object_is_not_a_catalog() {
    assert_eq!(read("[]"), None);
    assert_eq!(read("null"), None);
    assert_eq!(read("3"), None);
    assert_eq!(read(r#""tag_db""#), None);
    assert_eq!(read("true"), None);
}

#[test]
fn list_of_the_wrong_kind_is_not_read() {
    assert_eq!(read(r#"{"tag_db":{}}"#), None);
    assert_eq!(read(r#"{"weapons":null}"#), None);
    assert_eq!(read(r#"{"systems":"none"}"#), None);
    assert_eq!(read(r#"{"tag_db":[[]]}"#), None);
    assert_eq!(read(r#"{"weapons":[null]}"#), None);
    assert_eq!(read(r#"{"systems":[{},7]}"#), None);
}

#[test]
fn field_of_the_wrong_kind_is_not_read() {
    assert_eq!(read(r#"{"tag_db":[{"name":1}]}"#), None);
    assert_eq!(read(r#"{"tag_db":[{"name":"a","fluff":null}]}"#), None);
    assert_eq!(read(r#"{"weapons":[{"cost":"3"}]}"#), None);
    assert_eq!(read(r#"{"weapons":[{"cost":null}]}"#), None);
    assert_eq!(read(r#"{"weapons":[{"cost":1.5}]}"#), None);
    assert_eq!(read(r#"{"weapons":[{"range_min":2147483648}]}"#), None);
    assert_eq!(read(r#"{"weapons":[{"range_max":-2147483649}]}"#), None);
    assert_eq!(read(r#"{"weapons":[{"range_max":18446744073709551615}]}"#), None);
    assert_eq!(read(r#"{"weapons":[{"tags":"Fast"}]}"#), None);
    assert_eq!(read(r#"{"weapons":[{"tags":["Fast",1]}]}"#), None);
    assert_eq!(read(r#"{"weapons":[{"damage":[]}]}"#), None);
    assert_eq!(read(r#"{"systems":[{"rules":{}}]}"#), None);
    assert_eq!(read(r#"{"systems":[{"tags":[null]}]}"#), None);
}

#[test]
fn numbers_at_the_ends_of_their_type_are_read() {
    let cost = |text: &str| read(text).map(|catalog| catalog.weapons[0].cost);
    assert_eq!(cost(r#"{"weapons":[{"cost":2147483647}]}"#), Some(i32::MAX));
    assert_eq!(cost(r#"{"weapons":[{"cost":-2147483648}]}"#), Some(i32::MIN));
}

#[test]
fn enumeration_of_an_unknown_name_is_not_read() {
    assert_eq!(read(r#"{"weapons":[{"class":"Huge"}]}"#), None);
    assert_eq!(read(r#"{"weapons":[{"class":"primary"}]}"#), None);
    assert_eq!(read(r#"{"weapons":[{"class":1}]}"#), None);
    assert_eq!(read(r#"{"weapons":[{"targeting":"Primary"}]}"#), None);
    assert_eq!(read(r#"{"weapons":[{"targeting":""}]}"#), None);
    assert_eq!(
        read(r#"{"weapons":[{"class":"Auxiliary","targeting":"Area"}]}"#),
        Some(AppData {
            weapons: vec![Weapon {
                class: WeaponClass::Auxiliary,
                targeting: WeaponTargeting::Area,
                ..Weapon::default()
            }],
            ..AppData::default()
        })
    );
}

#[test]
fn first_of_two_members_of_one_name_is_read() {
    let doc = Json::Object(vec![
        Member { key: "name".to_string(), value: Json::Str("first".to_string()) },
        Member { key: "name".to_string(), value: Json::Int(2) },
    ]);
    assert_eq!(Tag::load(&doc), Some(tag("first", "")));
}

#[test]
fn session_starts_empty_without_a_readable_document() {
    assert_eq!(AppData::restore(None), AppData::default());
    assert_eq!(AppData::restore(Some(&Json::Null)), AppData::default());
    let unreadable = parsed(r#"{"weapons":[{"cost":"x"}]}"#);
    assert_eq!(AppData::restore(Some(&unreadable)), AppData::default());
}

#[test]
fn session_starts_from_the_stored_catalog() {
    let catalog = sample();
    assert_eq!(AppData::restore(Some(&catalog.save())), catalog);
    assert_eq!(AppData::restore(Some(&parsed(&written(&catalog)))), catalog);
}

#[test]
fn duplicate_tag_names_are_kept_across_writing_and_reading() {
    let catalog =
        AppData { tag_db: vec![tag("X", ""), tag("X", "second")], ..AppData::default() };
    let text = written(&catalog);
    assert_eq!(
        text,
        concat_all(&[
            r#"{"tag_db":[{"name":"X","fluff":""},{"name":"X","fluff":"second"}],"#,
            r#""weapons":[],"systems":[]}"#,
        ])
    );
    assert_eq!(read(&text), Some(catalog));
}
