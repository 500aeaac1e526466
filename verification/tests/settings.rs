use cargo_hatch::number::Float;
use cargo_hatch::settings::repo::context::{plan, Plan, Value};
use cargo_hatch::settings::repo::defaults::{
    get_bool, get_float, get_list, get_multi_list, get_number, get_string, run, Resolved,
    SettingKind,
};
use cargo_hatch::settings::repo::{
    BoolSetting, ListSetting, MultiListSetting, NumberSetting, RepoSetting, Setting, SettingType,
    StringSetting, StringValidator,
};
use cargo_hatch::settings::{DefaultSetting, DefaultValue, Defaults, RepoSettings};
use indexmap::{IndexMap, IndexSet};

fn float(value: f64) -> Float {
    Float::from_bits(value.to_bits())
}

fn values(list: &[&str]) -> IndexSet<String> {
    list.iter().map(|v| (*v).to_owned()).collect()
}

fn texts(list: &[&str]) -> Vec<String> {
    list.iter().map(|v| (*v).to_owned()).collect()
}

fn number(min: i64, max: i64, default: Option<i64>) -> NumberSetting<i64> {
    NumberSetting { min, max, default }
}

fn floating(min: f64, max: f64, default: Option<f64>) -> NumberSetting<Float> {
    NumberSetting {
        min: float(min),
        max: float(max),
        default: default.map(float),
    }
}

fn setting(ty: SettingType) -> RepoSetting {
    RepoSetting {
        description: "a question".to_owned(),
        condition: None,
        ty,
    }
}

fn given(value: DefaultValue, skip_prompt: bool) -> Option<DefaultSetting> {
    Some(DefaultSetting { value, skip_prompt })
}

const MIN_MAX: &str = "minimum is greater or equal the maximum value";
const RANGE: &str = "default value is not within the min/max range";
const LIST: &str = "default value isn't part of the possible values";
const MULTI_LIST: &str = "one of the default values isn't part of the possible values";

#[test]
fn number_settings_need_a_minimum_below_the_maximum() {
    assert_eq!(Some(MIN_MAX), number(5, 5, None).validate());
    assert_eq!(Some(MIN_MAX), number(6, 5, None).validate());
    assert_eq!(Some(MIN_MAX), number(5, 5, Some(5)).validate());
    assert_eq!(Some(MIN_MAX), number(i64::MAX, i64::MIN, None).validate());
    assert_eq!(None, number(4, 5, None).validate());
    assert_eq!(None, number(i64::MIN, i64::MAX, None).validate());
}

#[test]
fn number_defaults_may_be_the_minimum_but_not_the_maximum() {
    assert_eq!(None, number(1, 10, Some(1)).validate());
    assert_eq!(None, number(1, 10, Some(9)).validate());
    assert_eq!(Some(RANGE), number(1, 10, Some(10)).validate());
    assert_eq!(Some(RANGE), number(1, 10, Some(0)).validate());
    assert_eq!(Some(RANGE), number(1, 10, Some(11)).validate());
    assert_eq!(None, number(-3, -1, Some(-3)).validate());
    assert_eq!(Some(RANGE), number(-3, -1, Some(-1)).validate());
}

#[test]
fn float_settings_follow_the_same_rules() {
    assert_eq!(Some(MIN_MAX), floating(1.5, 1.5, None).validate());
    assert_eq!(Some(MIN_MAX), floating(2.0, 1.5, None).validate());
    assert_eq!(Some(MIN_MAX), floating(0.0, -0.0, None).validate());
    assert_eq!(None, floating(0.5, 1.5, None).validate());
    assert_eq!(None, floating(0.5, 1.5, Some(0.5)).validate());
    assert_eq!(None, floating(-1.5, 1.5, Some(-0.0)).validate());
    assert_eq!(Some(RANGE), floating(0.5, 1.5, Some(1.5)).validate());
    assert_eq!(Some(RANGE), floating(0.5, 1.5, Some(0.25)).validate());
    assert_eq!(Some(RANGE), floating(0.5, 1.5, Some(f64::NAN)).validate());
    assert_eq!(None, floating(f64::NEG_INFINITY, f64::INFINITY, Some(0.0)).validate());
}

#[test]
fn float_settings_with_a_bound_that_is_no_number_pass_the_first_rule() {
    assert_eq!(None, floating(f64::NAN, 1.0, None).validate());
    assert_eq!(None, floating(0.0, f64::NAN, None).validate());
    assert_eq!(Some(RANGE), floating(f64::NAN, 1.0, Some(0.5)).validate());
    assert_eq!(
        {
            let min = f64::NAN;
            let max = 1.0;
            let default = 0.5;
            if min >= max {
                Some(MIN_MAX)
            } else if !(min..max).contains(&default) {
                Some(RANGE)
            } else {
                None
            }
        },
        floating(f64::NAN, 1.0, Some(0.5)).validate()
    );
}

#[test]
fn list_defaults_must_be_offered() {
    let list = |default: Option<&str>| ListSetting {
        values: values(&["one", "two"]),
        default: default.map(str::to_owned),
    };
    assert_eq!(None, list(None).validate());
    assert_eq!(None, list(Some("one")).validate());
    assert_eq!(None, list(Some("two")).validate());
    assert_eq!(Some(LIST), list(Some("three")).validate());
    assert_eq!(Some(LIST), list(Some("One")).validate());
    assert_eq!(Some(LIST), list(Some("")).validate());
    let empty = ListSetting {
        values: IndexSet::new(),
        default: Some("one".to_owned()),
    };
    assert_eq!(Some(LIST), empty.validate());
}

#[test]
fn multi_list_defaults_must_all_be_offered() {
    let list = |default: Option<&[&str]>| MultiListSetting {
        values: values(&["one", "two", "three"]),
        default: default.map(texts),
    };
    assert_eq!(None, list(None).validate());
    assert_eq!(None, list(Some(&[])).validate());
    assert_eq!(None, list(Some(&["three", "one"])).validate());
    assert_eq!(None, list(Some(&["one", "one"])).validate());
    assert_eq!(Some(MULTI_LIST), list(Some(&["four"])).validate());
    assert_eq!(Some(MULTI_LIST), list(Some(&["one", "four", "two"])).validate());
    assert_eq!(Some(MULTI_LIST), list(Some(&["one", "two", ""])).validate());
}

#[test]
fn bool_and_string_settings_are_always_valid() {
    assert_eq!(None, BoolSetting { default: None }.validate());
    assert_eq!(None, BoolSetting { default: Some(true) }.validate());
    let string = StringSetting {
        default: Some(String::new()),
        validator: Some(StringValidator::Crate),
    };
    assert_eq!(None, string.validate());
}

#[test]
fn a_setting_is_validated_by_its_kind() {
    assert_eq!(
        None,
        setting(SettingType::Bool(BoolSetting { default: None })).validate()
    );
    assert_eq!(
        Some(MIN_MAX),
        setting(SettingType::Number(number(2, 1, None))).validate()
    );
    assert_eq!(
        Some(RANGE),
        setting(SettingType::Float(floating(1.0, 2.0, Some(2.0)))).validate()
    );
    assert_eq!(
        Some(LIST),
        setting(SettingType::List(ListSetting {
            values: values(&["a"]),
            default: Some("b".to_owned()),
        }))
        .validate()
    );
    assert_eq!(
        Some(MULTI_LIST),
        setting(SettingType::MultiList(MultiListSetting {
            values: values(&["a"]),
            default: Some(texts(&["a", "b"])),
        }))
        .validate()
    );
}

#[test]
fn the_first_invalid_setting_is_reported() {
    let mut args = IndexMap::new();
    args.insert(
        "fine".to_owned(),
        setting(SettingType::Number(number(1, 2, None))),
    );
    args.insert(
        "range".to_owned(),
        setting(SettingType::Number(number(1, 2, Some(2)))),
    );
    args.insert(
        "bounds".to_owned(),
        setting(SettingType::Number(number(2, 1, None))),
    );
    let settings = RepoSettings {
        crate_type: None,
        ignore: Vec::new(),
        args,
    };
    let invalid = settings.validate().err().unwrap();
    assert_eq!("range", invalid.name);
    assert_eq!(RANGE, invalid.reason);

    let mut args = IndexMap::new();
    args.insert(
        "fine".to_owned(),
        setting(SettingType::Number(number(1, 2, None))),
    );
    let settings = RepoSettings {
        crate_type: None,
        ignore: Vec::new(),
        args,
    };
    assert!(settings.validate().is_ok());
    let settings = RepoSettings {
        crate_type: None,
        ignore: Vec::new(),
        args: IndexMap::new(),
    };
    assert!(settings.validate().is_ok());
}

#[test]
fn set_default_fills_the_default_in() {
    let mut setting = BoolSetting { default: None };
    setting.set_default(true);
    assert_eq!(Some(true), setting.default);
    let mut setting = number(1, 5, Some(2));
    setting.set_default(4);
    assert_eq!((1, 5, Some(4)), (setting.min, setting.max, setting.default));
    let mut setting = StringSetting {
        default: None,
        validator: Some(StringValidator::Ident),
    };
    setting.set_default("name".to_owned());
    assert_eq!(Some("name".to_owned()), setting.default);
    assert!(matches!(setting.validator, Some(StringValidator::Ident)));
    let mut setting = ListSetting {
        values: values(&["a", "b"]),
        default: Some("a".to_owned()),
    };
    setting.set_default("b".to_owned());
    assert_eq!(Some("b".to_owned()), setting.default);
    assert_eq!(values(&["a", "b"]), setting.values);
    let mut setting = MultiListSetting {
        values: values(&["a", "b"]),
        default: None,
    };
    setting.set_default(texts(&["b"]));
    assert_eq!(Some(texts(&["b"])), setting.default);
}

#[test]
fn defaults_are_read_by_their_kind() {
    let of = |value: DefaultValue| DefaultSetting {
        value,
        skip_prompt: false,
    };
    assert_eq!(Some(true), get_bool(of(DefaultValue::Bool(true))).ok());
    assert_eq!(
        Some("text".to_owned()),
        get_string(of(DefaultValue::String("text".to_owned()))).ok()
    );
    assert_eq!(Some(10), get_number(of(DefaultValue::Number(10))).ok());
    assert_eq!(
        Some(2.5f64.to_bits()),
        get_float(of(DefaultValue::Float(float(2.5))))
            .ok()
            .map(Float::to_bits)
    );
    assert_eq!(
        Some("one".to_owned()),
        get_list(of(DefaultValue::List("one".to_owned()))).ok()
    );
    assert_eq!(
        Some(texts(&["one", "two"])),
        get_multi_list(of(DefaultValue::MultiList(texts(&["one", "two"])))).ok()
    );
}

#[test]
fn defaults_of_another_kind_are_errors() {
    let of = |value: DefaultValue| DefaultSetting {
        value,
        skip_prompt: true,
    };
    let error = get_bool(of(DefaultValue::String("true".to_owned())))
        .err()
        .unwrap();
    assert_eq!(SettingKind::Bool, error.expected);
    assert!(matches!(error.value, DefaultValue::String(text) if text == "true"));
    let error = get_string(of(DefaultValue::List("a".to_owned())))
        .err()
        .unwrap();
    assert_eq!(SettingKind::String, error.expected);
    assert!(matches!(error.value, DefaultValue::List(text) if text == "a"));
    let error = get_number(of(DefaultValue::Float(float(1.0)))).err().unwrap();
    assert_eq!(SettingKind::Number, error.expected);
    assert!(matches!(error.value, DefaultValue::Float(v) if v.to_bits() == 1.0f64.to_bits()));
    let error = get_float(of(DefaultValue::Number(1))).err().unwrap();
    assert_eq!(SettingKind::Float, error.expected);
    assert!(matches!(error.value, DefaultValue::Number(1)));
    let error = get_list(of(DefaultValue::String("a".to_owned())))
        .err()
        .unwrap();
    assert_eq!(SettingKind::List, error.expected);
    let error = get_multi_list(of(DefaultValue::List("a".to_owned())))
        .err()
        .unwrap();
    assert_eq!(SettingKind::MultiList, error.expected);
    assert!(matches!(error.value, DefaultValue::List(text) if text == "a"));
}

#[test]
fn a_default_that_skips_the_prompt_is_the_answer() {
    let resolved = run(
        BoolSetting { default: Some(true) },
        given(DefaultValue::Bool(false), true),
        get_bool,
    );
    assert!(matches!(resolved, Ok(Resolved::Answer(false))));
    let resolved = run(number(1, 5, None), given(DefaultValue::Number(99), true), get_number);
    assert!(matches!(resolved, Ok(Resolved::Answer(99))));
}

#[test]
fn a_default_that_does_not_skip_the_prompt_seeds_the_question() {
    let resolved = run(
        BoolSetting { default: Some(true) },
        given(DefaultValue::Bool(false), false),
        get_bool,
    );
    assert!(matches!(
        resolved,
        Ok(Resolved::Ask(BoolSetting {
            default: Some(false)
        }))
    ));
    let resolved = run(
        number(1, 5, Some(2)),
        given(DefaultValue::Number(4), false),
        get_number,
    );
    assert!(matches!(
        resolved,
        Ok(Resolved::Ask(NumberSetting {
            min: 1,
            max: 5,
            default: Some(4)
        }))
    ));
}

#[test]
fn without_a_default_the_question_is_asked_as_declared() {
    let resolved = run(BoolSetting { default: Some(true) }, None, get_bool);
    assert!(matches!(
        resolved,
        Ok(Resolved::Ask(BoolSetting {
            default: Some(true)
        }))
    ));
    let resolved = run(BoolSetting { default: None }, None, get_bool);
    assert!(matches!(
        resolved,
        Ok(Resolved::Ask(BoolSetting { default: None }))
    ));
}

#[test]
fn a_default_of_another_kind_stops_the_resolution() {
    for skip_prompt in [true, false] {
        let resolved = run(
            number(1, 5, None),
            given(DefaultValue::String("3".to_owned()), skip_prompt),
            get_number,
        );
        let error = resolved.err().unwrap();
        assert_eq!(SettingKind::Number, error.expected);
        assert!(matches!(error.value, DefaultValue::String(text) if text == "3"));
    }
}

#[test]
fn plans_follow_the_kind_of_the_setting() {
    let planned = plan(
        SettingType::String(StringSetting {
            default: None,
            validator: None,
        }),
        given(DefaultValue::String("demo".to_owned()), true),
    );
    assert!(matches!(planned, Ok(Plan::Insert(Value::String(text))) if text == "demo"));

    let planned = plan(
        SettingType::Float(floating(0.0, 1.0, None)),
        given(DefaultValue::Float(float(0.25)), true),
    );
    assert!(
        matches!(planned, Ok(Plan::Insert(Value::Float(v))) if v.to_bits() == 0.25f64.to_bits())
    );

    let planned = plan(
        SettingType::List(ListSetting {
            values: values(&["one", "two"]),
            default: None,
        }),
        given(DefaultValue::List("two".to_owned()), false),
    );
    match planned {
        Ok(Plan::Prompt(SettingType::List(list))) => {
            assert_eq!(Some("two".to_owned()), list.default);
            assert_eq!(values(&["one", "two"]), list.values);
        }
        _ => panic!("the list is asked for"),
    }

    let planned = plan(
        SettingType::MultiList(MultiListSetting {
            values: values(&["one", "two"]),
            default: None,
        }),
        given(DefaultValue::MultiList(texts(&["two", "one"])), true),
    );
    assert!(
        matches!(planned, Ok(Plan::Insert(Value::MultiList(list))) if list == texts(&["two", "one"]))
    );

    let planned = plan(SettingType::Number(number(1, 2, Some(1))), None);
    assert!(matches!(
        planned,
        Ok(Plan::Prompt(SettingType::Number(NumberSetting {
            min: 1,
            max: 2,
            default: Some(1)
        })))
    ));

    let planned = plan(
        SettingType::Bool(BoolSetting { default: None }),
        given(DefaultValue::Number(1), true),
    );
    let error = planned.err().unwrap();
    assert_eq!(SettingKind::Bool, error.expected);
    assert!(matches!(error.value, DefaultValue::Number(1)));
}

#[test]
fn defaults_hold_one_answer_for_each_name() {
    let mut defaults = Defaults::new();
    assert!(defaults.remove("a").is_none());
    defaults.insert(
        "a".to_owned(),
        DefaultSetting {
            value: DefaultValue::Number(1),
            skip_prompt: false,
        },
    );
    defaults.insert(
        "b".to_owned(),
        DefaultSetting {
            value: DefaultValue::Number(2),
            skip_prompt: true,
        },
    );
    defaults.insert(
        "a".to_owned(),
        DefaultSetting {
            value: DefaultValue::Number(3),
            skip_prompt: true,
        },
    );
    assert!(defaults.remove("c").is_none());
    let a = defaults.remove("a").unwrap();
    assert!(matches!(a.value, DefaultValue::Number(3)));
    assert!(a.skip_prompt);
    assert!(defaults.remove("a").is_none());
    let b = defaults.remove("b").unwrap();
    assert!(matches!(b.value, DefaultValue::Number(2)));
    assert!(defaults.remove("b").is_none());
}
