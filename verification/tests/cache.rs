use micronfig::cache::{Cache, MicronfigCache};
use micronfig::envmap::EnvMap;
use micronfig::filestore::FileStore;

#[test]
fn envdot_register() {
    let contents = "\n\t\t\t\tGARAS=garas\n\t\t\t\texport AUTO= auto\n\t\t\t\tBUS = bus\n\t\t\t";

    let mut cache = Cache::default();
    cache.envdot_register(Some(contents));

    assert_eq!(cache.envdot.len(), 1);
}

#[test]
fn envdot_register_missing_file_skipped() {
    let mut cache = Cache::default();
    cache.envdot_register(None);

    assert_eq!(cache.envdot.len(), 0);
}

#[test]
fn get_envvars() {
    let mut env = EnvMap::new();
    env.set("GARAS", "garas");
    let files = FileStore::new();

    let cache = Cache::default();
    assert_eq!(cache.get(&env, &files, "GARAS"), Some("garas".to_string()));
}

#[test]
fn get_envfiles() {
    let mut files = FileStore::new();
    files.put_readable("/fixtures/letters", "garas");
    let mut env = EnvMap::new();
    env.set("GARAS_FILE", "/fixtures/letters");

    let cache = Cache::default();
    assert_eq!(cache.get(&env, &files, "GARAS"), Some("garas".to_string()));
}

#[test]
fn get_envdot() {
    let env = EnvMap::new();
    let files = FileStore::new();

    let mut cache = Cache::default();
    cache.envdot_register(Some("GARAS=garas"));
    assert_eq!(cache.get(&env, &files, "GARAS"), Some("garas".to_string()));
}

#[test]
fn priority() {
    let mut cache = Cache::default();

    let mut files = FileStore::new();
    files.put_readable("/fixtures/envfiles", "envfiles");

    let envdot_contents =
        "\n\t\t\t\texport ENVFILES=envdot\n\t\t\t\texport ENVVARS=envdot\n\t\t\t\texport ENVDOT=envdot\n\t\t\t";

    let mut env = EnvMap::new();
    env.set("ENVFILES_FILE", "/fixtures/envfiles");

    env.set("ENVFILES", "envvars");
    env.set("ENVVARS", "envvars");

    cache.envdot_register(Some(envdot_contents));

    assert_eq!(cache.get(&env, &files, "ENVFILES"), Some("envfiles".to_string()));
    assert_eq!(cache.get(&env, &files, "ENVVARS"), Some("envvars".to_string()));
    assert_eq!(cache.get(&env, &files, "ENVDOT"), Some("envdot".to_string()));
    assert_eq!(cache.get(&env, &files, "NONE"), None);
}

#[test]
fn envdot_first_registered_wins() {
    let env = EnvMap::new();
    let files = FileStore::new();

    let mut cache = Cache::default();
    cache.envdot_register(Some("SHARED=first"));
    cache.envdot_register(Some("SHARED=second"));

    assert_eq!(cache.get(&env, &files, "SHARED"), Some("first".to_string()));
}

#[test]
fn micronfig_cache_add_envdot() {
    let mut cache = MicronfigCache::default();
    cache.add_envdot("GARAS=garas");
    cache.add_envdot("AUTO=auto");

    assert_eq!(cache.dotenvs.len(), 2);
    assert_eq!(cache.dotenvs[0].var("GARAS"), Some("garas".to_string()));
    assert_eq!(cache.dotenvs[1].var("AUTO"), Some("auto".to_string()));
}
