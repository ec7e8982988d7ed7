use micronfig::conversion::{ConversionStep, Value};
use micronfig::envfiles;
use micronfig::envmap::EnvMap;
use micronfig::envvars;
use micronfig::filestore::FileStore;
use micronfig::multi::{get, Source};

fn uint_chain() -> Vec<ConversionStep> {
    vec![ConversionStep::ParseUint]
}

#[test]
fn mod_it_works_var() {
    let mut env = EnvMap::new();
    env.set("NUMBER", "1");
    let files = FileStore::new();

    match get(&env, &files, "NUMBER", "_FILE", &uint_chain()) {
        Source::EnvVar(Ok(Value::Uint(1))) => {},
        _ => panic!("expected Source::EnvVar(Ok(1u32))"),
    }
}

#[test]
fn mod_it_works_file() {
    let mut files = FileStore::new();
    files.put_readable("/fixtures/number", "1");
    let mut env = EnvMap::new();
    env.set("NUMBER_FILE", "/fixtures/number");

    let n = get(&env, &files, "NUMBER", "_FILE", &uint_chain());
    match n {
        Source::EnvFile(Ok(Value::Uint(1))) => {},
        _ => panic!("expected Source::EnvFile(Ok(1u32))"),
    }
}

#[test]
fn mod_missing_envvar() {
    let env = EnvMap::new();
    let files = FileStore::new();
    let chain: Vec<ConversionStep> = vec![];
    match get(&env, &files, "MISSING_ENVVAR", "_FILE", &chain) {
        Source::NotFound => {},
        _ => panic!("expected Source::NotFound"),
    }
}

#[test]
fn mod_missing_file() {
    let mut env = EnvMap::new();
    env.set("NUMBER_FILE", "/this/file/does/not/exist");
    let files = FileStore::new();

    match get(&env, &files, "NUMBER", "_FILE", &uint_chain()) {
        Source::EnvFile(Err(envfiles::Error::CannotOpenFile)) => {},
        _ => panic!("expected Source::EnvFile(Err(envfiles::Error::CannotOpenFile(_)))"),
    }
}

#[test]
fn mod_not_a_number_var() {
    let mut env = EnvMap::new();
    env.set("NUMBER", "XYZ");
    let files = FileStore::new();

    match get(&env, &files, "NUMBER", "_FILE", &uint_chain()) {
        Source::EnvVar(Err(envvars::Error::CannotConvertValue(_))) => {},
        _ => panic!("expected Source::EnvVar(Err(envvars::Error::CannotConvertValue(_)))"),
    }
}

#[test]
fn mod_not_a_number_file() {
    let mut files = FileStore::new();
    files.put_readable("/fixtures/number", "XYZ");
    let mut env = EnvMap::new();
    env.set("NUMBER_FILE", "/fixtures/number");

    match get(&env, &files, "NUMBER", "_FILE", &uint_chain()) {
        Source::EnvFile(Err(envfiles::Error::CannotConvertValue(_))) => {},
        _ => panic!("expected Source::EnvFile(Err(envfiles::Error::CannotConvertValue(_)))"),
    }
}

#[test]
fn mod_unwrap_var_ok() {
    Source::EnvVar(Ok(Value::Text("ok".to_string()))).unwrap();
}

#[test]
fn mod_unwrap_file_ok() {
    Source::EnvFile(Ok(Value::Text("ok".to_string()))).unwrap();
}

#[test]
#[should_panic]
fn mod_unwrap_var_err() {
    Source::EnvVar(Err(envvars::Error::CannotReadEnvVar)).unwrap();
}

#[test]
#[should_panic]
fn mod_unwrap_file_err() {
    Source::EnvFile(Err(envfiles::Error::CannotReadEnvVar)).unwrap();
}
