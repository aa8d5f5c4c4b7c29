use l20n::ast::Data;
use l20n::compiler::compile;
use l20n::context::{Locale, LocalizeError, MAX_RESOLVE_DEPTH};
use l20n::resolver::{env_get, ResolveContext, ResolveError};

fn get<'a>(out: &'a [(String, Data)], key: &str) -> &'a Data {
    let mut found: Option<&'a Data> = None;
    for (k, v) in out.iter() {
        if k == key {
            found = Some(v);
        }
    }
    found.expect("key not present in localized output")
}

fn get_str(out: &[(String, Data)], key: &str) -> String {
    match get(out, key) {
        Data::Str(s) => s.clone(),
        _ => panic!("expected a string value"),
    }
}

#[test]
fn test_compile() {
    let map = compile("<hi 'hello world'>").unwrap();
    let entity = env_get(&map, &String::from("hi")).unwrap();
    let data = Data::Null;
    let ctx = ResolveContext::new(&map, &data);
    match entity.resolve_data(&ctx, MAX_RESOLVE_DEPTH) {
        Ok(Data::Str(s)) => assert_eq!(s, String::from("hello world")),
        _ => panic!("expected hello world"),
    }
}

#[test]
fn test_locale() {
    let mut locale = Locale::new();
    let src = r#"
    <brand 'Rust' long: 'Rust Lang'>
    <hi 'Hello, {{ brand::long }}!'>
    <many['zero'] { zero: 'none', one: 'one', many: 'too many' }>
    <mail 'Email in your inbox: {{ many.many }}.'>
    <fac($n) { $n == 0 ? 1 : $n * fac($n -1) }>
    <factorial "Factorial of {{ $number }} is {{ fac($number) }}.">
    "#;
    locale.add_resource(src).unwrap();

    let data = Data::Dict(vec![(String::from("number"), Data::Num(3))]);
    let t = locale.localize_data(data).unwrap();

    assert_eq!(get_str(&t, "hi"), "Hello, Rust Lang!");
    assert_eq!(get_str(&t, "factorial"), "Factorial of 3 is 6.");
    assert_eq!(get_str(&t, "mail"), "Email in your inbox: too many.");
}

#[test]
fn plain_entity_localizes() {
    let mut locale = Locale::new();
    locale.add_resource("<hi 'hello world'>").unwrap();
    let t = locale.localize().unwrap();
    assert_eq!(t.len(), 1);
    assert_eq!(get_str(&t, "hi"), "hello world");
}

#[test]
fn attribute_access() {
    let mut locale = Locale::new();
    locale.add_resource("<brand 'Rust' long: 'Rust Lang'> <hi 'Hello, {{ brand::long }}!'>")
        .unwrap();
    let t = locale.localize().unwrap();
    assert_eq!(get_str(&t, "hi"), "Hello, Rust Lang!");
}

#[test]
fn computed_attribute_access() {
    let mut locale = Locale::new();
    locale.add_resource("<brand 'Rust' long: 'Rust Lang'> <hi '{{ brand::[\'long\'] }}'>")
        .unwrap();
    let t = locale.localize().unwrap();
    assert_eq!(get_str(&t, "hi"), "Rust Lang");
}

#[test]
fn explicit_key_overrides_default_selector() {
    let mut locale = Locale::new();
    let src = "<many['zero'] { zero: 'none', one: 'one', many: 'too many' }> \
               <mail 'Email in your inbox: {{ many.many }}.'>";
    locale.add_resource(src).unwrap();
    let t = locale.localize().unwrap();
    assert_eq!(get_str(&t, "mail"), "Email in your inbox: too many.");
    assert_eq!(get_str(&t, "many"), "none");
}

#[test]
fn literal_default_key_wins_without_explicit_key() {
    let mut locale = Locale::new();
    locale.add_resource("<h { a: 'aye', *b: 'bee' }> <m '{{ h }}'>").unwrap();
    let t = locale.localize().unwrap();
    assert_eq!(get_str(&t, "m"), "bee");
    assert_eq!(get_str(&t, "h"), "bee");
}

#[test]
fn recursive_macro_and_number_interpolation() {
    let mut locale = Locale::new();
    let src = "<fac($n) { $n == 0 ? 1 : $n * fac($n - 1) }> \
               <factorial \"Factorial of {{ $number }} is {{ fac($number) }}.\">";
    locale.add_resource(src).unwrap();
    let data = Data::Dict(vec![(String::from("number"), Data::Num(3))]);
    let t = locale.localize_data(data).unwrap();
    assert_eq!(get_str(&t, "factorial"), "Factorial of 3 is 6.");
}

#[test]
fn missing_variable_fails_whole_call() {
    let mut locale = Locale::new();
    locale.add_resource("<ok 'fine'> <bad '{{ $undefined }}'>").unwrap();
    let r: Result<Vec<(String, Data)>, LocalizeError> = locale.localize();
    match r {
        Err(LocalizeError::ResolveError(ResolveError::MissingVar(name))) => {
            assert_eq!(name, String::from("undefined"));
        },
        _ => panic!("expected a missing-variable error"),
    }
}

#[test]
fn missing_identifier_error() {
    let mut locale = Locale::new();
    locale.add_resource("<bad '{{ nothere }}'>").unwrap();
    match locale.localize() {
        Err(LocalizeError::ResolveError(ResolveError::MissingIdent(name))) => {
            assert_eq!(name, String::from("nothere"));
        },
        _ => panic!("expected a missing-identifier error"),
    }
}

#[test]
fn missing_attribute_error() {
    let mut locale = Locale::new();
    locale.add_resource("<brand 'Rust'> <bad '{{ brand::nope }}'>").unwrap();
    match locale.localize() {
        Err(LocalizeError::ResolveError(ResolveError::MissingAttr)) => {},
        _ => panic!("expected a missing-attribute error"),
    }
}

#[test]
fn missing_selector_error() {
    let mut locale = Locale::new();
    locale.add_resource("<h { a: 'aye' }>").unwrap();
    match locale.localize() {
        Err(LocalizeError::ResolveError(ResolveError::MissingIndex)) => {},
        _ => panic!("expected a missing-selector error"),
    }
}

#[test]
fn wrong_type_error() {
    let mut locale = Locale::new();
    locale.add_resource("<brand 'Rust'> <bad '{{ 1 + brand }}'>").unwrap();
    match locale.localize() {
        Err(LocalizeError::ResolveError(ResolveError::WrongType)) => {},
        _ => panic!("expected a wrong-type error"),
    }
}

#[test]
fn wrong_argument_count_error() {
    let mut locale = Locale::new();
    locale.add_resource("<f($n) { $n }> <bad '{{ f(1, 2) }}'>").unwrap();
    match locale.localize() {
        Err(LocalizeError::ResolveError(ResolveError::WrongNumberOfArgs)) => {},
        _ => panic!("expected a wrong-argument-count error"),
    }
}

#[test]
fn self_reference_fails_too_deep() {
    let mut locale = Locale::new();
    locale.add_resource("<a '{{ a }}'>").unwrap();
    match locale.localize() {
        Err(LocalizeError::ResolveError(ResolveError::TooDeep)) => {},
        _ => panic!("expected a too-deep error"),
    }
}

#[test]
fn private_entries_hidden_but_referable() {
    let mut locale = Locale::new();
    locale.add_resource("<_b 'secretly'> <open1 '{{ _b }} visible'>").unwrap();
    let t = locale.localize().unwrap();
    assert_eq!(t.len(), 1);
    assert_eq!(get_str(&t, "open1"), "secretly visible");
}

#[test]
fn later_resource_shadows_earlier() {
    let mut locale = Locale::new();
    locale.add_resource("<hi 'first'>").unwrap();
    locale.add_resource("<hi 'second'>").unwrap();
    let t = locale.localize().unwrap();
    assert_eq!(t.len(), 1);
    assert_eq!(get_str(&t, "hi"), "second");
}

#[test]
fn comments_are_dropped() {
    let mut locale = Locale::new();
    locale.add_resource("/* a note */ <hi 'x'>").unwrap();
    let t = locale.localize().unwrap();
    assert_eq!(t.len(), 1);
}

#[test]
fn arithmetic_and_negative_numbers() {
    let mut locale = Locale::new();
    locale.add_resource("<a '{{ 0 - 5 }}'> <b '{{ 7 / 2 }}'> <c '{{ 7 % 2 }}'> <d '{{ 2 * 3 + 1 }}'>")
        .unwrap();
    let t = locale.localize().unwrap();
    assert_eq!(get_str(&t, "a"), "-5");
    assert_eq!(get_str(&t, "b"), "3");
    assert_eq!(get_str(&t, "c"), "1");
    assert_eq!(get_str(&t, "d"), "7");
}

#[test]
fn runtime_data_property_access() {
    let mut locale = Locale::new();
    locale.add_resource("<m 'Hi {{ $user.name }}'>").unwrap();
    let data = Data::Dict(vec![(
        String::from("user"),
        Data::Dict(vec![(String::from("name"), Data::Str(String::from("Ada")))]),
    )]);
    let t = locale.localize_data(data).unwrap();
    assert_eq!(get_str(&t, "m"), "Hi Ada");
}

#[test]
fn parse_error_reported_and_locale_unchanged() {
    let mut locale = Locale::new();
    locale.add_resource("<ok 'fine'>").unwrap();
    assert!(locale.add_resource("<broken").is_err());
    let t = locale.localize().unwrap();
    assert_eq!(t.len(), 1);
    assert_eq!(get_str(&t, "ok"), "fine");
}

#[test]
fn comparison_and_logic_operators() {
    let mut locale = Locale::new();
    locale.add_resource(
        "<a '{{ 1 < 2 ? \'y\' : \'n\' }}'> <b '{{ 2 <= 1 ? \'y\' : \'n\' }}'> \
         <c '{{ 1 == 1 && 2 != 3 ? \'y\' : \'n\' }}'> <d '{{ !(1 > 2) ? \'y\' : \'n\' }}'>",
    ).unwrap();
    let t = locale.localize().unwrap();
    assert_eq!(get_str(&t, "a"), "y");
    assert_eq!(get_str(&t, "b"), "n");
    assert_eq!(get_str(&t, "c"), "y");
    assert_eq!(get_str(&t, "d"), "y");
}
