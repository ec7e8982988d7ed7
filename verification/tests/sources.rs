use micronfig::cache::Cache;
use micronfig::conversion::{ConversionStep, Value};
use micronfig::envfiles;
use micronfig::envmap::EnvMap;
use micronfig::envvars;
use micronfig::filestore::FileStore;

#[test]
fn envvars_it_works() {
    let mut env = EnvMap::new();
    env.set("LETTERS", "XYZ");

    let cache = Cache::default();
    let value = cache.get_from_envvars(&env, "LETTERS");
    assert_eq!(value, Some("XYZ".to_string()));
}

#[test]
fn envvars_missing_envvar() {
    let env = EnvMap::new();
    let chain: Vec<ConversionStep> = vec![];
    let value = envvars::get(&env, "THIS_ENVVAR_DOES_NOT_EXIST", &chain);
    assert!(matches!(value, Err(envvars::Error::CannotReadEnvVar)));
}

#[test]
fn envvars_not_a_number() {
    let mut env = EnvMap::new();
    env.set("NUMBER", "XYZ");
    let chain = vec![ConversionStep::ParseUint];
    let value = envvars::get(&env, "NUMBER", &chain);
    assert!(matches!(value, Err(envvars::Error::CannotConvertValue(_))));
}

#[test]
fn var_it_works() {
    let mut env = EnvMap::new();
    env.set("NUMBER", "1");
    let chain = vec![ConversionStep::ParseUint];
    let number = envvars::get(&env, "NUMBER", &chain).unwrap();
    assert_eq!(number, Value::Uint(1));
}

#[test]
fn var_missing_envvar() {
    let env = EnvMap::new();
    let chain: Vec<ConversionStep> = vec![];
    match envvars::get(&env, "THIS_ENVVAR_DOES_NOT_EXIST", &chain) {
        Err(envvars::Error::CannotReadEnvVar) => {},
        _ => panic!("expected Err(Error::CannotReadEnvVar)"),
    }
}

#[test]
fn var_not_a_number() {
    let mut env = EnvMap::new();
    env.set("NUMBER", "XYZ");
    let chain = vec![ConversionStep::ParseUint];
    match envvars::get(&env, "NUMBER", &chain) {
        Err(envvars::Error::CannotConvertValue(_)) => {},
        _ => panic!("expected Error::CannotConvertValue(_)"),
    }
}

#[test]
fn envfiles_it_works() {
    let mut files = FileStore::new();
    files.put_readable("/fixtures/letters", "XYZ");
    let mut env = EnvMap::new();
    env.set("LETTERS_FILE", "/fixtures/letters");

    let cache = Cache::default();
    let value = cache.get_from_envfiles(&env, &files, "LETTERS");
    assert_eq!(value, Ok("XYZ".to_string()));
}

#[test]
fn envfiles_missing_envvar() {
    let env = EnvMap::new();
    let files = FileStore::new();
    match envfiles::read(&env, &files, "THIS_ENVVAR_DOES_NOT_EXIST_FILE") {
        Err(envfiles::Error::CannotReadEnvVar) => {},
        _ => panic!("expected Err(Error::CannotReadEnvVar)"),
    }
}

#[test]
fn envfiles_missing_file() {
    let mut env = EnvMap::new();
    env.set("NUMBER_FILE", "/this/file/does/not/exist");
    let files = FileStore::new();
    match envfiles::read(&env, &files, "NUMBER_FILE") {
        Err(envfiles::Error::CannotOpenFile) => {},
        _ => panic!("expected Err(Error::CannotOpenFile)"),
    }
}

#[test]
fn envfiles_unreadable_file() {
    let mut env = EnvMap::new();
    env.set("NUMBER_FILE", "/fixtures/locked");
    let mut files = FileStore::new();
    files.put_unreadable("/fixtures/locked");
    match envfiles::read(&env, &files, "NUMBER_FILE") {
        Err(envfiles::Error::CannotReadFile) => {},
        _ => panic!("expected Err(Error::CannotReadFile)"),
    }
}

#[test]
fn envfiles_not_a_number() {
    let mut files = FileStore::new();
    files.put_readable("/fixtures/number", "XYZ");
    let mut env = EnvMap::new();
    env.set("NUMBER_FILE", "/fixtures/number");
    let chain = vec![ConversionStep::ParseUint];
    match envfiles::get(&env, &files, "NUMBER_FILE", &chain) {
        Err(envfiles::Error::CannotConvertValue(_)) => {},
        _ => panic!("expected Err(Error::CannotConvertValue(_))"),
    }
}

#[test]
fn envmap_later_binding_wins() {
    let mut env = EnvMap::new();
    env.set("KEY", "one");
    env.set("KEY", "two");
    assert_eq!(env.lookup("KEY"), Some("two".to_string()));
    assert_eq!(env.lookup("OTHER"), None);
}
