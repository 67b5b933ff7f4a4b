use summ_server::backend::RegistryOptions;
use summ_server::config::{AuthMode, ServeArgs, ServerConfig, DEFAULT_MAX_UPLOAD_BYTES};

/// The arguments that a `serve` argument list stands for, or nothing where it
/// does not parse.
fn args(extra: &[&str]) -> Option<ServeArgs> {
    let mut parsed = ServeArgs::default();
    for pair in extra.chunks(2) {
        let value = pair[1];
        match pair[0] {
            "--auth" => parsed.auth = AuthMode::from_name(value)?,
            "--read-apikey" => parsed.read_apikey = Some(value.to_owned()),
            "--write-apikey" => parsed.write_apikey = Some(value.to_owned()),
            "--max-upload-bytes" => parsed.max_upload_bytes = value.parse().ok()?,
            _ => return None,
        }
    }
    Some(parsed)
}

#[test]
fn the_default_is_an_open_registry() {
    assert!(!ServerConfig::default().auth.is_enabled());
    let args = args(&["--auth", "none"]).expect("parses");
    let (config, generated) = args.server_config().ok().expect("valid");
    assert!(!config.auth.is_enabled());
    assert!(generated.is_none(), "nothing to generate when auth is off");
}

#[test]
fn a_key_without_the_mode_is_a_startup_error() {
    // The failure this prevents is silent: an operator who set SUMM_READ_APIKEY
    // and believes the registry is closed.
    let args = args(&["--auth", "none", "--read-apikey", "k"]).expect("parses");
    let message = args.server_config().err().expect("must not start");
    assert!(message.contains("--auth write"), "{message}");
    assert!(message.contains("--auth all"), "{message}");
}

#[test]
fn write_mode_takes_one_key_and_refuses_the_other() {
    let supplied = args(&["--auth", "write", "--write-apikey", "mine"]).expect("parses");
    let (config, generated) = supplied.server_config().ok().expect("valid");
    assert!(config.auth.is_enabled());
    let generated = generated.expect("reported");
    assert!(!generated.write, "the key was supplied");
    assert!(!generated.read, "this mode has no read key to invent");

    let bare = args(&["--auth", "write"]).expect("parses");
    let (_, generated) = bare.server_config().ok().expect("valid");
    assert!(
        generated.expect("reported").write,
        "an absent write key is generated, or the mode locks the operator out"
    );

    // A read key here is an operator who believes reads are guarded.
    let contradictory = args(&["--auth", "write", "--read-apikey", "k"]).expect("parses");
    let message = contradictory.server_config().err().expect("must not start");
    assert!(message.contains("--auth all"), "{message}");
}

#[test]
fn apikey_mode_generates_what_was_not_supplied() {
    let args = args(&["--auth", "all", "--write-apikey", "mine"]).expect("parses");
    let (config, generated) = args.server_config().ok().expect("valid");
    assert!(config.auth.is_enabled());
    let generated = generated.expect("reported");
    assert!(generated.read, "the read key had to be invented");
    assert!(!generated.write);

    let args = args_both();
    let (_, generated) = args.server_config().ok().expect("valid");
    let generated = generated.expect("reported");
    assert!(!generated.read);
    assert!(!generated.write, "nothing to print when both were supplied");
}

fn args_both() -> ServeArgs {
    args(&["--auth", "all", "--read-apikey", "r", "--write-apikey", "w"]).expect("parses")
}

#[test]
fn an_empty_key_is_rejected_rather_than_matching_an_empty_credential() {
    let empty_read = args(&["--auth", "all", "--read-apikey", " "]).expect("parses");
    assert!(empty_read.server_config().is_err());
    let empty_write = args(&["--auth", "write", "--write-apikey", " "]).expect("parses");
    assert!(empty_write.server_config().is_err());
}

#[test]
fn the_upload_ceiling_defaults_high_and_can_be_removed() {
    // The failure this guards against is silent in the worst way: a limit below a
    // real layer turns every push of a big image into a `413` that no retry can
    // fix, and the client's message names a byte count rather than the flag that
    // produced it.
    let ceiling = |extra: &[&str]| {
        let (config, _) = args(extra)
            .expect("parses")
            .server_config()
            .ok()
            .expect("valid");
        config.max_upload_bytes
    };

    assert_eq!(ceiling(&[]), Some(DEFAULT_MAX_UPLOAD_BYTES));
    assert!(
        DEFAULT_MAX_UPLOAD_BYTES > 8 * 1024 * 1024 * 1024,
        "the default must clear the largest layers people actually push",
    );
    assert_eq!(
        ceiling(&["--max-upload-bytes", "0"]),
        None,
        "zero removes the ceiling rather than rejecting every body",
    );
    assert_eq!(ceiling(&["--max-upload-bytes", "4096"]), Some(4096));
}

#[test]
fn the_modes_are_spelled_as_one_ladder() {
    // The flag answers one question - which requests need a key - and the three
    // values are its only answers, from open to closed.
    for (spelling, mode) in [
        ("none", AuthMode::Open),
        ("write", AuthMode::Write),
        ("all", AuthMode::All),
    ] {
        let args = args(&["--auth", spelling]).expect("parses");
        assert_eq!(args.auth, mode);
    }
    assert!(
        args(&["--auth", "apikey"]).is_none(),
        "the old vocabulary must fail loudly rather than mean something new"
    );
}

#[test]
fn the_modes_have_the_names_of_how_open_they_are() {
    assert_eq!(AuthMode::from_name("open"), Some(AuthMode::Open));
    assert_eq!(AuthMode::from_name("public-pull"), Some(AuthMode::Write));
    assert_eq!(AuthMode::from_name("private"), Some(AuthMode::All));
    assert_eq!(AuthMode::from_name("Private"), None);
}

#[test]
fn every_limit_reaches_the_configuration() {
    let mut args = ServeArgs::default();
    args.max_manifest_bytes = 77;
    args.default_page_size = 5;
    args.max_page_size = 6;
    args.no_referrers = true;
    args.allow_missing_references = true;
    let (config, _) = args.server_config().ok().expect("valid");
    assert_eq!(config.max_manifest_bytes, 77);
    assert_eq!(config.default_page_size, 5);
    assert_eq!(config.max_page_size, 6);
    assert_eq!(config.max_tag_params, 32);
    assert_eq!(config.chunk_min_length, None);
    assert!(!config.referrers_enabled);
    assert_eq!(
        args.registry_options(),
        RegistryOptions {
            validate_references: false,
            max_manifest_bytes: 77
        }
    );
}
