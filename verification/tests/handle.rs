use micronfig::cache::{Cache, Source};
use micronfig::conversion::{ConversionStep, Value};
use micronfig::envmap::EnvMap;
use micronfig::filestore::FileStore;
use micronfig::handle::{get_required, get_optional, Error};

fn uint_chain() -> Vec<ConversionStep> {
    vec![ConversionStep::ParseUint]
}

#[test]
fn resolve_from_variable() {
    let mut env = EnvMap::new();
    env.set("NUMBER", "1");
    let files = FileStore::new();
    let cache = Cache::new();

    assert_eq!(
        cache.resolve(&env, &files, "NUMBER", "_FILE"),
        Source::FromVariable("1".to_string())
    );
    assert_eq!(get_required(&cache, &env, &files, "NUMBER", &uint_chain()), Ok(Value::Uint(1)));
}

#[test]
fn resolve_from_file() {
    let mut files = FileStore::new();
    files.put_readable("/fixtures/number", "1");
    let mut env = EnvMap::new();
    env.set("NUMBER_FILE", "/fixtures/number");
    let cache = Cache::new();

    assert_eq!(cache.resolve(&env, &files, "NUMBER", "_FILE"), Source::FromFile("1".to_string()));
    assert_eq!(get_required(&cache, &env, &files, "NUMBER", &uint_chain()), Ok(Value::Uint(1)));
}

#[test]
fn resolve_not_found() {
    let env = EnvMap::new();
    let files = FileStore::new();
    let cache = Cache::new();

    assert_eq!(cache.resolve(&env, &files, "NUMBER", "_FILE"), Source::NotFound);
    assert_eq!(
        get_required(&cache, &env, &files, "NUMBER", &uint_chain()),
        Err(Error::MissingValue)
    );
    assert_eq!(get_optional(&cache, &env, &files, "NUMBER", &uint_chain()), Ok(None));
}

#[test]
fn resolve_from_dotenv() {
    let env = EnvMap::new();
    let files = FileStore::new();
    let mut cache = Cache::new();
    cache.envdot_register(Some("NUMBER=7"));

    assert_eq!(cache.resolve(&env, &files, "NUMBER", "_FILE"), Source::FromDotenv("7".to_string()));
    assert_eq!(get_required(&cache, &env, &files, "NUMBER", &uint_chain()), Ok(Value::Uint(7)));
}

#[test]
fn broken_file_indirection_is_a_hard_failure() {
    // The direct variable is set, but the indirection path points nowhere:
    // resolution must fail rather than fall back to the variable.
    let mut env = EnvMap::new();
    env.set("NUMBER", "1");
    env.set("NUMBER_FILE", "/this/file/does/not/exist");
    let files = FileStore::new();
    let cache = Cache::new();

    assert!(matches!(cache.resolve(&env, &files, "NUMBER", "_FILE"), Source::Failed(_)));
    assert_eq!(
        get_required(&cache, &env, &files, "NUMBER", &uint_chain()),
        Err(Error::CannotOpenFile)
    );
    assert_eq!(
        get_optional(&cache, &env, &files, "NUMBER", &uint_chain()),
        Err(Error::CannotOpenFile)
    );
}

#[test]
fn unreadable_file_is_a_hard_failure() {
    let mut env = EnvMap::new();
    env.set("NUMBER_FILE", "/fixtures/locked");
    let mut files = FileStore::new();
    files.put_unreadable("/fixtures/locked");
    let cache = Cache::new();

    assert_eq!(
        get_required(&cache, &env, &files, "NUMBER", &uint_chain()),
        Err(Error::CannotReadFile)
    );
}

#[test]
fn malformed_optional_value_is_an_error() {
    let mut env = EnvMap::new();
    env.set("NUMBER", "XYZ");
    let files = FileStore::new();
    let cache = Cache::new();

    assert!(matches!(
        get_optional(&cache, &env, &files, "NUMBER", &uint_chain()),
        Err(Error::CannotConvertValue(_))
    ));
}

#[test]
fn optional_present_value_is_returned() {
    let mut env = EnvMap::new();
    env.set("NAME", "steffo");
    let files = FileStore::new();
    let cache = Cache::new();
    let chain: Vec<ConversionStep> = vec![];

    assert_eq!(
        get_optional(&cache, &env, &files, "NAME", &chain),
        Ok(Some(Value::Text("steffo".to_string())))
    );
}
