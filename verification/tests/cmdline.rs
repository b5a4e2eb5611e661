use elf2tab::cmdline::{
    command_line, parse_number, parse_perms, ElfFile, NumberError, Opt, PermsError,
};

#[test]
// elf2tab [FLAGS] [--package-name=<pkg-name>] [--output-file=[<filename>]] <elf[,architecture]>...
fn simple_invocations_succeed() {
    {
        let args = vec!["elf2tab", "app.elf"];
        let result = Opt::try_parse_from(args.iter().map(|arg| arg.to_string()).collect());
        assert!(result.is_ok());
    }
    {
        let args = vec!["elf2tab", "--package-name", "my-pkg", "app.elf"];
        let result = Opt::try_parse_from(args.iter().map(|arg| arg.to_string()).collect());
        assert!(result.is_ok());
    }
    {
        let args = vec!["elf2tab", "--output-file", "out.tab", "app.elf"];
        let result = Opt::try_parse_from(args.iter().map(|arg| arg.to_string()).collect());
        assert!(result.is_ok());
    }
    {
        let args = vec!["elf2tab", "--package-name", "my-pkg", "app.elf"];
        let result = Opt::try_parse_from(args.iter().map(|arg| arg.to_string()).collect());
        assert!(result.is_ok());
    }
    {
        let args = vec![
            "elf2tab",
            "--output-file",
            "out.tab",
            "--package-name",
            "pkg-name",
            "app.elf",
        ];
        let result = Opt::try_parse_from(args.iter().map(|arg| arg.to_string()).collect());
        println!("{:?}", result);
        assert!(result.is_ok());
    }
}

#[test]
// elf2tab [FLAGS] [--package-name=<pkg-name>] [--output-file=[<filename>]] <elf[,architecture]>...
fn simple_invocations_fail() {
    {
        let args = vec!["elf2tab", "app.elf", "--package-name"];
        let result = Opt::try_parse_from(args.iter().map(|arg| arg.to_string()).collect());
        assert!(result.is_err());
    }
}

#[test]
// elf2tab [FLAGS] [--package-name=<pkg-name>] [--output-file=[<filename>]] [--minimum-stack-size=<min-stack-size>] <elf>...
fn advanced_invocations_succeed() {
    {
        let args = vec![
            "elf2tab",
            "--package-name",
            "my-pkg",
            "--minimum-ram-size",
            "10",
            "app.elf",
        ];
        let result = Opt::try_parse_from(args.iter().map(|arg| arg.to_string()).collect());
        assert!(result.is_ok());
    }
}

#[test]
// elf2tab [FLAGS] [--package-name=<pkg-name>] [--output-file=[<filename>]] [--minimum-stack-size=<min-stack-size>] <elf[,architecture]>...
fn advanced_invocations_fail() {
    {
        let args = vec![
            "elf2tab",
            "--package-name",
            "my-pkg",
            "--minimum-ram-size",
            "app.elf",
        ];
        let result = Opt::try_parse_from(args.iter().map(|arg| arg.to_string()).collect());
        assert!(result.is_err());
    }
    {
        let args = vec![
            "elf2tab",
            "--package-name",
            "my-pkg",
            "--minimum-ram-size",
            "10",
            "--app-heap",
            "10",
            "app.elf",
        ];
        let result = Opt::try_parse_from(args.iter().map(|arg| arg.to_string()).collect());
        assert!(result.is_err());
    }
    {
        let args = vec![
            "elf2tab",
            "--package-name",
            "my-pkg",
            "--minimum-ram-size",
            "10",
            "--stack",
            "10",
            "app.elf",
        ];
        let result = Opt::try_parse_from(args.iter().map(|arg| arg.to_string()).collect());
        assert!(result.is_err());
    }
    {
        let args = vec![
            "elf2tab",
            "--package-name",
            "my-pkg",
            "--minimum-ram-size",
            "10",
            "--kernel-heap",
            "10",
            "app.elf",
        ];
        let result = Opt::try_parse_from(args.iter().map(|arg| arg.to_string()).collect());
        assert!(result.is_err());
    }
}

#[test]
// elf2tab [FLAGS] [--package-name=<pkg-name>] [--output-file=[<filename>]] [--app-heap[=<heap-size>]]
//                [--kernel-heap[=<kernel-heap-size>]] [--stack[=<stack-size>]] <elf[,architecture]>..."
fn expert_invocations_succeed() {
    {
        let args = vec![
            "elf2tab",
            "--package-name",
            "my-pkg",
            "--kernel-heap",
            "10",
            "app.elf",
        ];
        let result = Opt::try_parse_from(args.iter().map(|arg| arg.to_string()).collect());
        assert!(result.is_ok());
    }
    {
        let args = vec![
            "elf2tab",
            "--package-name",
            "my-pkg",
            "--app-heap",
            "10",
            "app.elf",
        ];
        let result = Opt::try_parse_from(args.iter().map(|arg| arg.to_string()).collect());
        assert!(result.is_ok());
    }
    {
        let args = vec![
            "elf2tab",
            "--package-name",
            "my-pkg",
            "--stack",
            "10",
            "app.elf",
        ];
        let result = Opt::try_parse_from(args.iter().map(|arg| arg.to_string()).collect());
        assert!(result.is_ok());
    }
    {
        let args = vec![
            "elf2tab",
            "--package-name",
            "my-pkg",
            "--stack",
            "10",
            "--app-heap",
            "10",
            "--kernel-heap",
            "10",
            "app.elf",
        ];
        let result = Opt::try_parse_from(args.iter().map(|arg| arg.to_string()).collect());
        assert!(result.is_ok());
    }
}

#[test]
// elf2tab [FLAGS] [--package-name=<pkg-name>] [--output-file=[<filename>]] [--app-heap[=<heap-size>]]
//                [--kernel-heap[=<kernel-heap-size>]] [--stack[=<stack-size>]] <elf[,architecture]>..."
fn expert_invocations_fail() {
    {
        let args = vec![
            "elf2tab",
            "--package-name",
            "my-pkg",
            "--kernel-heap",
            "10",
            "--minimum-ram-size",
            "10",
            "app.elf",
        ];
        let result = Opt::try_parse_from(args.iter().map(|arg| arg.to_string()).collect());
        assert!(result.is_err());
    }
    {
        let args = vec![
            "elf2tab",
            "--package-name",
            "my-pkg",
            "--app-heap",
            "10",
            "--minimum-ram-size",
            "10",
            "app.elf",
        ];
        let result = Opt::try_parse_from(args.iter().map(|arg| arg.to_string()).collect());
        assert!(result.is_err());
    }
    {
        let args = vec![
            "elf2tab",
            "--package-name",
            "my-pkg",
            "--stack",
            "10",
            "--minimum-ram-size",
            "10",
            "app.elf",
        ];
        let result = Opt::try_parse_from(args.iter().map(|arg| arg.to_string()).collect());
        assert!(result.is_err());
    }
}

#[test]
// elf2tab [FLAGS] [--write_id=<write_id>] [--read_ids=<read_ids>] [--access_ids=<access_ids>]
//                <elf[,architecture]>..."
fn storage_ids() {
    {
        let args = vec![
            "elf2tab",
            "--write_id",
            "1234567",
            "--read_ids",
            "1 2",
            "--access_ids",
            "2 3",
            "app.elf",
        ];
        let result = Opt::try_parse_from(args.iter().map(|arg| arg.to_string()).collect());
        assert!(result.is_err());
    }
}

fn parse(args: &[&str]) -> Result<Opt, elf2tab::cmdline::CliError> {
    Opt::try_parse_from(args.iter().map(|arg| arg.to_string()).collect())
}

#[test]
fn defaults_are_filled_in() {
    let opt = parse(&["elf2tab", "app.elf"]).unwrap();
    assert!(!opt.verbose);
    assert!(!opt.deterministic);
    assert!(!opt.disabled);
    assert_eq!(opt.app_version, 0);
    assert_eq!(opt.minimum_stack_size, None);
    assert_eq!(opt.output, "TockApp.tab");
    assert_eq!(opt.package_name, None);
    assert_eq!(opt.stack_size, None);
    assert_eq!(opt.app_heap_size, 1024);
    assert_eq!(opt.kernel_heap_size, 1024);
    assert_eq!(opt.input.len(), 1);
    assert_eq!(opt.input[0].path, "app.elf");
    assert_eq!(opt.input[0].architecture, None);
    assert_eq!(opt.protected_region_size, None);
    assert!(opt.permissions.is_empty());
    assert_eq!(opt.write_id, None);
    assert_eq!(opt.read_ids, None);
    assert_eq!(opt.access_ids, None);
    assert_eq!(opt.short_id, None);
    assert_eq!(opt.kernel_major, None);
    assert_eq!(opt.kernel_minor, None);
    assert_eq!(opt.kernel_version(), None);
    assert_eq!(opt.supported_boards, None);
    assert_eq!(opt.minimum_footer_size, 0);
    assert!(!opt.sha256_enable && !opt.sha384_enable && !opt.sha512_enable);
    assert_eq!(opt.rsa4096_private_key, None);
    assert_eq!(opt.rsa4096_public_key, None);
}

#[test]
fn every_option_is_read() {
    let opt = parse(&[
        "elf2tab",
        "-v",
        "--deterministic",
        "--disable",
        "--app-version",
        "7",
        "-o",
        "out.tab",
        "-n",
        "blink",
        "--stack",
        "4096",
        "--app-heap",
        "2048",
        "--kernel-heap",
        "512",
        "--protected-region-size",
        "128",
        "--permissions",
        "1,2",
        "1,65",
        "--write_id",
        "0x10",
        "--read_ids",
        "1",
        "0x20",
        "--access_ids",
        "3",
        "--short-id",
        "9",
        "--kernel-major",
        "2",
        "--kernel-minor",
        "1",
        "--supported-boards",
        "hail,imix",
        "--minimum-footer-size",
        "64",
        "--sha256",
        "--sha384",
        "--sha512",
        "--rsa4096-private",
        "private.der",
        "--rsa4096-public",
        "public.der",
        "--",
        "cortex-m4.elf",
        "build/app.elf,rv32imac",
    ])
    .unwrap();
    assert!(opt.verbose && opt.deterministic && opt.disabled);
    assert_eq!(opt.app_version, 7);
    assert_eq!(opt.output, "out.tab");
    assert_eq!(opt.package_name.as_deref(), Some("blink"));
    assert_eq!(opt.stack_size, Some(4096));
    assert_eq!(opt.app_heap_size, 2048);
    assert_eq!(opt.kernel_heap_size, 512);
    assert_eq!(opt.protected_region_size, Some(128));
    assert_eq!(opt.permissions, vec![(1, 2), (1, 65)]);
    assert_eq!(opt.write_id, Some(16));
    assert_eq!(opt.read_ids, Some(vec![1, 32]));
    assert_eq!(opt.access_ids, Some(vec![3]));
    assert_eq!(opt.short_id, Some(9));
    assert_eq!(opt.kernel_version(), Some((2, 1)));
    assert_eq!(opt.supported_boards.as_deref(), Some("hail,imix"));
    assert_eq!(opt.minimum_footer_size, 64);
    assert!(opt.sha256_enable && opt.sha384_enable && opt.sha512_enable);
    assert_eq!(opt.rsa4096_private_key.as_deref(), Some("private.der"));
    assert_eq!(opt.rsa4096_public_key.as_deref(), Some("public.der"));
    assert_eq!(opt.input.len(), 2);
    assert_eq!(opt.input[0].path, "cortex-m4.elf");
    assert_eq!(opt.input[0].architecture, None);
    assert_eq!(opt.input[1].path, "build/app.elf");
    assert_eq!(opt.input[1].architecture.as_deref(), Some("rv32imac"));
}

#[test]
fn kernel_minor_defaults_to_zero_and_needs_major() {
    let opt = parse(&["elf2tab", "--kernel-major", "3", "app.elf"]).unwrap();
    assert_eq!(opt.kernel_version(), Some((3, 0)));
    assert!(parse(&["elf2tab", "--kernel-minor", "3", "app.elf"]).is_err());
}

#[test]
fn input_is_required_and_help_is_no_options() {
    let missing = parse(&["elf2tab"]).unwrap_err();
    assert!(missing.use_stderr);
    assert_ne!(missing.exit_code, 0);
    let help = parse(&["elf2tab", "--help"]).unwrap_err();
    assert!(!help.use_stderr);
    assert_eq!(help.exit_code, 0);
    assert!(help.message.contains("--package-name"));
    let version = parse(&["elf2tab", "--version"]).unwrap_err();
    assert_eq!(version.exit_code, 0);
    assert!(version.message.contains("0.1.0"));
}

#[test]
fn bad_permissions_are_refused() {
    let error = parse(&["elf2tab", "--permissions", "12", "--", "app.elf"]).unwrap_err();
    assert!(error.message.contains("invalid number,option: no `,` found in `12`"));
    assert!(parse(&["elf2tab", "--permissions", "1,x", "--", "app.elf"]).is_err());
    assert!(parse(&["elf2tab", "--permissions", "1,4294967296", "--", "app.elf"]).is_err());
}

#[test]
fn numbers_are_decimal_digits_after_an_optional_plus() {
    assert_eq!(parse_number("0"), Ok(0));
    assert_eq!(parse_number("007"), Ok(7));
    assert_eq!(parse_number("+15"), Ok(15));
    assert_eq!(parse_number("4294967295"), Ok(u32::MAX));
    assert_eq!(parse_number("4294967296"), Err(NumberError::TooLarge));
    assert_eq!(parse_number("99999999999999999999999"), Err(NumberError::TooLarge));
    assert_eq!(parse_number(""), Err(NumberError::Empty));
    assert_eq!(parse_number("+"), Err(NumberError::InvalidDigit));
    assert_eq!(parse_number("-1"), Err(NumberError::InvalidDigit));
    assert_eq!(parse_number(" 1"), Err(NumberError::InvalidDigit));
    assert_eq!(parse_number("1 "), Err(NumberError::InvalidDigit));
    assert_eq!(parse_number("0x10"), Err(NumberError::InvalidDigit));
    assert_eq!(parse_number("١٢"), Err(NumberError::InvalidDigit));
    // The library agrees with the standard library on what a number is.
    for text in ["0", "+0", "12", "4294967295", "4294967296", "", "+", "++1", "1+", "a", "1a"] {
        assert_eq!(parse_number(text).ok(), text.parse::<u32>().ok());
    }
}

#[test]
fn permissions_are_cut_at_the_first_comma() {
    assert_eq!(parse_perms("1,2"), Ok((1, 2)));
    assert_eq!(parse_perms("4294967295,0"), Ok((u32::MAX, 0)));
    assert_eq!(parse_perms("12"), Err(PermsError::NoComma));
    assert_eq!(parse_perms(""), Err(PermsError::NoComma));
    assert_eq!(parse_perms(",2"), Err(PermsError::BadNumber(NumberError::Empty)));
    assert_eq!(parse_perms("1,"), Err(PermsError::BadNumber(NumberError::Empty)));
    assert_eq!(parse_perms("1,2,3"), Err(PermsError::BadNumber(NumberError::InvalidDigit)));
    assert_eq!(parse_perms("x,4294967296"), Err(PermsError::BadNumber(NumberError::InvalidDigit)));
    assert_eq!(parse_perms("1,4294967296"), Err(PermsError::BadNumber(NumberError::TooLarge)));
    assert_eq!(
        PermsError::NoComma.message("12"),
        "invalid number,option: no `,` found in `12`"
    );
    assert_eq!(
        PermsError::BadNumber(NumberError::InvalidDigit).message("1,x"),
        "invalid digit found in string"
    );
    assert_eq!(
        PermsError::BadNumber(NumberError::Empty).message(",1"),
        "cannot parse integer from empty string"
    );
    assert_eq!(
        PermsError::BadNumber(NumberError::TooLarge).message("1,99999999999"),
        "number too large to fit in target type"
    );
}

#[test]
fn elf_arguments_are_cut_at_the_last_comma() {
    let plain = ElfFile::from_text("build/cortex-m4.elf");
    assert_eq!(plain.path, "build/cortex-m4.elf");
    assert_eq!(plain.architecture, None);
    let named = ElfFile::from_text("app.elf,cortex-m4");
    assert_eq!(named.path, "app.elf");
    assert_eq!(named.architecture.as_deref(), Some("cortex-m4"));
    let twice = ElfFile::from_text("a,b.elf,rv32");
    assert_eq!(twice.path, "a,b.elf");
    assert_eq!(twice.architecture.as_deref(), Some("rv32"));
    let empty = ElfFile::from_text("app.elf,");
    assert_eq!(empty.path, "app.elf");
    assert_eq!(empty.architecture.as_deref(), Some(""));
    let wide = ElfFile::from_text("täst.elf,ärm");
    assert_eq!(wide.path, "täst.elf");
    assert_eq!(wide.architecture.as_deref(), Some("ärm"));
}

#[test]
fn description_holds_every_argument() {
    let command = command_line();
    assert_eq!(command.get_name(), "elf2tab");
    assert_eq!(command.get_version(), Some("0.1.0"));
    assert_eq!(
        command.get_about().unwrap().to_string(),
        "Convert Tock userland apps from .elf files to Tock Application Bundles (TABs or .tab files)."
    );
    let ids: Vec<&str> = command.get_arguments().map(|arg| arg.get_id().as_str()).collect();
    assert_eq!(
        ids,
        vec![
            "verbose",
            "deterministic",
            "disabled",
            "sha256-add",
            "sha384-add",
            "sha512-add",
            "app_version",
            "min-ram-size",
            "stack-size",
            "heap-size",
            "kernel-heap-size",
            "protected-region-size",
            "min-footer-size",
            "filename",
            "pkg-name",
            "elf[,architecture]",
            "supported-boards",
            "rsa4096-private-key",
            "rsa4096-public-key",
            "permissions",
            "write_id",
            "read_ids",
            "access_ids",
            "short-id",
            "kernel-major-version",
            "kernel-minor-version",
        ]
    );
    let find = |id: &str| command.get_arguments().find(|arg| arg.get_id().as_str() == id).unwrap();

    let verbose = find("verbose");
    assert_eq!(verbose.get_long(), Some("verbose"));
    assert_eq!(verbose.get_short(), Some('v'));
    assert_eq!(verbose.get_help().unwrap().to_string(), "Be verbose");
    assert!(matches!(verbose.get_action(), clap::ArgAction::SetTrue));
    assert!(!verbose.is_required_set());
    assert!(verbose.get_default_values().is_empty());

    let disabled = find("disabled");
    assert_eq!(disabled.get_long(), Some("disable"));
    assert_eq!(disabled.get_short(), None);

    let output = find("filename");
    assert_eq!(output.get_long(), Some("output-file"));
    assert_eq!(output.get_short(), Some('o'));
    assert_eq!(output.get_default_values().len(), 1);
    assert_eq!(output.get_default_values()[0].to_str(), Some("TockApp.tab"));

    let heap = find("heap-size");
    assert_eq!(heap.get_long(), Some("app-heap"));
    assert_eq!(heap.get_default_values()[0].to_str(), Some("1024"));
    assert!(find("stack-size").get_default_values().is_empty());

    let input = find("elf[,architecture]");
    assert!(input.is_positional());
    assert_eq!(input.get_long(), None);
    assert!(input.is_required_set());
    assert!(matches!(input.get_action(), clap::ArgAction::Append));
    let values = input.get_num_args().unwrap();
    assert_eq!(values.min_values(), 1);
    assert_eq!(values.max_values(), usize::MAX);
    assert_eq!(input.get_help().unwrap().to_string(), "application file(s) to package");

    let permissions = find("permissions");
    assert!(matches!(permissions.get_action(), clap::ArgAction::Append));
    assert_eq!(permissions.get_num_args().unwrap().min_values(), 1);
    assert!(!permissions.is_required_set());
    assert!(find("write_id").get_num_args().is_none());

    let ram = find("min-ram-size");
    assert_eq!(ram.get_long(), Some("minimum-ram-size"));
    let rivals: Vec<&str> = command
        .get_arg_conflicts_with(ram)
        .iter()
        .map(|arg| arg.get_id().as_str())
        .collect();
    assert_eq!(rivals, vec!["stack-size", "heap-size", "kernel-heap-size"]);
    assert!(command.get_arg_conflicts_with(find("stack-size")).is_empty());
}

#[test]
fn options_are_taken_from_matches() {
    let matches = command_line()
        .try_get_matches_from(["elf2tab", "--stack", "512", "--sha384", "a.elf,arm", "b.elf"])
        .unwrap();
    let opt = Opt::from_matches(&matches);
    assert_eq!(opt.stack_size, Some(512));
    assert!(opt.sha384_enable);
    assert!(!opt.sha256_enable);
    assert_eq!(opt.app_heap_size, 1024);
    assert_eq!(opt.output, "TockApp.tab");
    assert_eq!(opt.input.len(), 2);
    assert_eq!(opt.input[0].path, "a.elf");
    assert_eq!(opt.input[0].architecture.as_deref(), Some("arm"));
    assert_eq!(opt.input[1].path, "b.elf");
    // Matches of another command hold nothing under these names.
    let other = clap::Command::new("other").try_get_matches_from(["other"]).unwrap();
    let empty = Opt::from_matches(&other);
    assert!(!empty.verbose);
    assert_eq!(empty.app_version, 0);
    assert_eq!(empty.kernel_heap_size, 1024);
    assert_eq!(empty.output, "TockApp.tab");
    assert!(empty.input.is_empty());
    assert!(empty.permissions.is_empty());
    assert_eq!(empty.read_ids, None);
    assert_eq!(empty.package_name, None);
}
