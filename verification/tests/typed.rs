use cfgloader::from_env::first_of;
use cfgloader::{
    load_env_file, load_or_default, CfgError, Env, FileRead, FromEnv, Rule,
};

#[derive(Debug, PartialEq)]
struct Other {
    setting_1: String,
    setting_2: String,
}

#[derive(Debug, PartialEq)]
struct App {
    port: String,
    app_name: String,
    features: Vec<String>,
    retries: u8,
    other: Other,
}

fn rule(key: &str, default: Option<&str>, required: bool) -> Rule {
    Rule {
        key: key.to_string(),
        default: default.map(|d| d.to_string()),
        required,
        delimiter: ",".to_string(),
    }
}

impl FromEnv for Other {
    fn load(env: &mut Env, file: &FileRead) -> Result<Self, CfgError> {
        load_env_file(env, file)?;
        Ok(Other {
            setting_1: rule("OTHER_SETTING_1", Some("default_value_1"), false).bind_scalar(env)?,
            setting_2: rule("OTHER_SETTING_2", Some("default_value_2"), false).bind_scalar(env)?,
        })
    }
}

impl FromEnv for App {
    fn load(env: &mut Env, file: &FileRead) -> Result<Self, CfgError> {
        load_env_file(env, file)?;
        Ok(App {
            port: rule("PORT", None, false).bind_scalar(env)?,
            app_name: rule("APP_NAME", None, true).bind_scalar(env)?,
            features: rule("FEATURES", Some("foo,bar"), false).bind_list(env)?,
            retries: rule("RETRIES", Some("3"), false).bind_scalar(env)?,
            other: Other::load(env, file)?,
        })
    }
}

fn content(s: &str) -> FileRead {
    FileRead::Content(s.as_bytes().to_vec())
}

#[test]
fn typed_configuration_is_loaded() {
    let mut env = Env::new();
    env.set("OTHER_SETTING_1".to_string(), "one".to_string());
    let app = App::load(&mut env, &content("APP_NAME=demo\nRETRIES=5\nOTHER_SETTING_1=file\n"));
    assert_eq!(
        app,
        Ok(App {
            port: String::new(),
            app_name: "demo".to_string(),
            features: vec!["foo".to_string(), "bar".to_string()],
            retries: 5,
            other: Other { setting_1: "one".to_string(), setting_2: "default_value_2".to_string() },
        })
    );
}

#[test]
fn typed_configuration_reports_the_missing_key() {
    let mut env = Env::new();
    assert_eq!(
        App::load(&mut env, &FileRead::Missing),
        Err(CfgError::MissingEnv("APP_NAME".to_string()))
    );
}

#[test]
fn typed_multi_path_takes_the_first_file_that_suffices() {
    let mut env = Env::new();
    let files = vec![FileRead::Missing, content("APP_NAME=second\n"), content("APP_NAME=third\n")];
    let app = App::load_iter(&mut env, &files).unwrap();
    assert_eq!(app.app_name, "second");
}

#[test]
fn typed_multi_path_reports_the_last_error() {
    let mut env = Env::new();
    let files = vec![FileRead::Missing, FileRead::Unreadable("denied".to_string())];
    assert_eq!(
        App::load_iter(&mut env, &files),
        Err(CfgError::LoadError {
            msg: "failed to load .env file".to_string(),
            source: "denied".to_string(),
        })
    );
    assert_eq!(
        App::load_iter(&mut env, &vec![]),
        Err(CfgError::LoadError {
            msg: "no .env file found in any provided path".to_string(),
            source: "not found".to_string(),
        })
    );
}

#[test]
fn load_or_default_is_the_default() {
    assert_eq!(load_or_default::<u32>(&FileRead::Missing), Ok(0));
    assert_eq!(load_or_default::<String>(&FileRead::Unreadable("x".to_string())), Ok(String::new()));
    assert_eq!(load_or_default::<Vec<u8>>(&content("A=1")), Ok(vec![]));
}

fn failed(text: &str) -> CfgError {
    CfgError::LoadError { msg: "failed to load .env file".to_string(), source: text.to_string() }
}

#[test]
fn first_of_takes_the_first_configuration() {
    assert_eq!(first_of::<u8>(vec![Err(failed("a")), Ok(1), Ok(2), Err(failed("b"))]), Ok(1));
    assert_eq!(first_of::<u8>(vec![Ok(1)]), Ok(1));
    assert_eq!(first_of::<u8>(vec![Ok(1), Err(failed("b"))]), Ok(1));
}

#[test]
fn first_of_reports_the_last_error_where_all_failed() {
    assert_eq!(
        first_of::<u8>(vec![Err(failed("a")), Err(CfgError::MissingEnv("K".to_string()))]),
        Err(CfgError::MissingEnv("K".to_string()))
    );
    assert_eq!(first_of::<u8>(vec![Err(failed("a"))]), Err(failed("a")));
}

#[test]
fn first_of_nothing_says_that_no_file_was_found() {
    assert_eq!(
        first_of::<u8>(vec![]),
        Err(CfgError::LoadError {
            msg: "no .env file found in any provided path".to_string(),
            source: "not found".to_string(),
        })
    );
}

#[test]
fn typed_multi_path_stops_at_the_first_that_goes_through() {
    let mut env = Env::new();
    let files = vec![content("APP_NAME=first\n"), content("APP_NAME=second\nPORT=9\n")];
    let app = App::load_iter(&mut env, &files).unwrap();
    assert_eq!(app.app_name, "first");
    assert_eq!(app.port, "");
    assert_eq!(env.get("PORT"), None);
}
