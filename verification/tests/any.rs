use micronfig::any::{get, Source};
use micronfig::conversion::{ConversionStep, Value};
use micronfig::envfiles;
use micronfig::envmap::EnvMap;
use micronfig::envvars;
use micronfig::filestore::FileStore;

fn uint_chain() -> Vec<ConversionStep> {
    vec![ConversionStep::ParseUint]
}

#[test]
fn any_it_works_var() {
    let mut env = EnvMap::new();
    env.set("NUMBER", "1");
    let files = FileStore::new();

    match get(&env, &files, "NUMBER", "_FILE", &uint_chain()) {
        Source::Var(Ok(Value::Uint(1))) => {},
        _ => panic!("expected Source::Var(Ok(1u32))"),
    }
}

#[test]
fn any_it_works_file() {
    let mut files = FileStore::new();
    files.put_readable("/fixtures/number", "1");
    let mut env = EnvMap::new();
    env.set("NUMBER_FILE", "/fixtures/number");

    let n = get(&env, &files, "NUMBER", "_FILE", &uint_chain());
    match n {
        Source::File(Ok(Value::Uint(1))) => {},
        _ => panic!("expected Source::File(Ok(1u32))"),
    }
}

#[test]
fn any_missing_envvar() {
    let env = EnvMap::new();
    let files = FileStore::new();
    let chain: Vec<ConversionStep> = vec![];
    match get(&env, &files, "MISSING_ENVVAR", "_FILE", &chain) {
        Source::NotFound => {},
        _ => panic!("expected Source::NotFound"),
    }
}

#[test]
fn any_missing_file() {
    let mut env = EnvMap::new();
    env.set("NUMBER_FILE", "/this/file/does/not/exist");
    let files = FileStore::new();

    match get(&env, &files, "NUMBER", "_FILE", &uint_chain()) {
        Source::File(Err(envfiles::Error::CannotOpenFile)) => {},
        _ => panic!("expected Source::File(Err(file::Error::CannotOpenFile(_)))"),
    }
}

#[test]
fn any_not_a_number_var() {
    let mut env = EnvMap::new();
    env.set("NUMBER", "XYZ");
    let files = FileStore::new();

    match get(&env, &files, "NUMBER", "_FILE", &uint_chain()) {
        Source::Var(Err(envvars::Error::CannotConvertValue(_))) => {},
        _ => panic!("expected Source::Var(Err(var::Error::CannotConvertValue(_)))"),
    }
}

#[test]
fn any_not_a_number_file() {
    let mut files = FileStore::new();
    files.put_readable("/fixtures/number", "XYZ");
    let mut env = EnvMap::new();
    env.set("NUMBER_FILE", "/fixtures/number");

    match get(&env, &files, "NUMBER", "_FILE", &uint_chain()) {
        Source::File(Err(envfiles::Error::CannotConvertValue(_))) => {},
        _ => panic!("expected Source::File(Err(file::Error::CannotConvertValue(_)))"),
    }
}

#[test]
fn any_unwrap_var_ok() {
    Source::Var(Ok(Value::Text("ok".to_string()))).unwrap();
}

#[test]
fn any_unwrap_file_ok() {
    Source::File(Ok(Value::Text("ok".to_string()))).unwrap();
}

#[test]
#[should_panic]
fn any_unwrap_var_err() {
    Source::Var(Err(envvars::Error::CannotReadEnvVar)).unwrap();
}

#[test]
#[should_panic]
fn any_unwrap_file_err() {
    Source::File(Err(envfiles::Error::CannotReadEnvVar)).unwrap();
}

#[test]
fn any_expect_returns_value() {
    let value = Source::File(Ok(Value::Uint(1))).expect("value to be present");
    assert_eq!(value, Value::Uint(1));
}

#[test]
fn any_file_beats_var() {
    let mut files = FileStore::new();
    files.put_readable("/fixtures/number", "2");
    let mut env = EnvMap::new();
    env.set("NUMBER", "1");
    env.set("NUMBER_FILE", "/fixtures/number");

    match get(&env, &files, "NUMBER", "_FILE", &uint_chain()) {
        Source::File(Ok(Value::Uint(2))) => {},
        _ => panic!("expected the file source to win"),
    }
}
