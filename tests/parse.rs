use mdp::locale::english;
use mdp::parse::{parse_args, CommandsOptions, Config};

fn args(list: &[&str]) -> Vec<String> {
    let mut v = vec!["mdp".to_string()];
    v.extend(list.iter().map(|s| s.to_string()));
    v
}

fn ok(command: CommandsOptions, len: Option<usize>, file: Option<&str>) -> Result<Config, String> {
    Ok(Config { command, password_length: len, output_file: file.map(|s| s.to_string()) })
}

#[test]
fn no_arguments_generates() {
    let loc = english();
    assert_eq!(parse_args(&args(&[]), &loc), ok(CommandsOptions::GeneratePassword, None, None));
}

#[test]
fn help_and_version() {
    let loc = english();
    assert_eq!(parse_args(&args(&["-h", "x"]), &loc), ok(CommandsOptions::Help(loc.usage.to_string()), None, None));
    assert_eq!(parse_args(&args(&["--help"]), &loc), ok(CommandsOptions::Help(loc.options.to_string()), None, None));
    assert_eq!(parse_args(&args(&["-ver"]), &loc), ok(CommandsOptions::Version(loc.ver.to_string()), None, None));
    assert_eq!(parse_args(&args(&["--version"]), &loc), ok(CommandsOptions::Version(loc.ver_desc.to_string()), None, None));
}

#[test]
fn commands_with_length_and_file() {
    let loc = english();
    assert_eq!(
        parse_args(&args(&["-f", "bank", "-l", "16", "store.bin"]), &loc),
        ok(CommandsOptions::Find("bank".to_string()), Some(16), Some("store.bin"))
    );
    assert_eq!(parse_args(&args(&["--del", "mail"]), &loc), ok(CommandsOptions::Delete("mail".to_string()), None, None));
    assert_eq!(parse_args(&args(&["-n", "site"]), &loc), ok(CommandsOptions::New("site".to_string()), None, None));
    assert_eq!(
        parse_args(&args(&["--add", "site", "pw", "f.bin"]), &loc),
        ok(CommandsOptions::Add("site".to_string(), "pw".to_string()), None, Some("f.bin"))
    );
    assert_eq!(parse_args(&args(&["-l", "8"]), &loc), ok(CommandsOptions::GeneratePassword, Some(8), None));
    assert_eq!(parse_args(&args(&["--long", "32", "x.bin"]), &loc), ok(CommandsOptions::GeneratePassword, Some(32), Some("x.bin")));
}

#[test]
fn length_errors() {
    let loc = english();
    assert_eq!(parse_args(&args(&["-l"]), &loc), Err(format!("-l/--long : {}", loc.manque_args)));
    assert_eq!(parse_args(&args(&["-l", "abc"]), &loc), Err(loc.err_opt_l_int.to_string()));
    assert_eq!(parse_args(&args(&["-l", "7"]), &loc), Err(loc.err_opt_l_bound.to_string()));
    assert_eq!(parse_args(&args(&["-l", "33"]), &loc), Err(loc.err_opt_l_bound.to_string()));
    assert_eq!(parse_args(&args(&["-l", "10", "-l", "12"]), &loc), Err(loc.err_opt_l_1fois.to_string()));
}

#[test]
fn command_errors() {
    let loc = english();
    assert_eq!(parse_args(&args(&["-f", "a", "-d", "b"]), &loc), Err(loc.comm_mut_excl.to_string()));
    assert_eq!(parse_args(&args(&["-d"]), &loc), Err(format!("-d/--del : {}", loc.manque_args)));
    assert_eq!(parse_args(&args(&["-a", "x"]), &loc), Err(format!("-a/--add : {}", loc.manque_args)));
    assert_eq!(parse_args(&args(&["store.bin"]), &loc), Err(loc.err_valid_args.to_string()));
    assert_eq!(parse_args(&args(&["-x"]), &loc), Err(format!("{} : -x", loc.err_bad_arg)));
    assert_eq!(parse_args(&args(&["-f", "a", "extra", "file"]), &loc), Err(format!("{} : extra", loc.err_bad_arg)));
}
