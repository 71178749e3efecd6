use tuack_ng::config::{DataItem, SampleItem};
use tuack_ng::limits::{memory_limit_known, resolve_memory_limit, DEFAULT_MEMORY_LIMIT_BYTES};
use tuack_ng::random::{fill_seeds, gen_rnd, mix_u128_complex};
use tuack_ng::render::{Checker, MarkdownChecker, TypstChecker};
use tuack_ng::toolchain::{
    build_check_cmd, build_compile_cmd, build_run_cmd, compile_args_for, ext_of,
    render_command_template, resolve_language, string_to_command, Compiler, Language,
    LanguageRegistry, Runner, ToolchainError,
};

fn cpp_language() -> Language {
    Language {
        language: "C++".to_string(),
        compiler: Some(Compiler {
            executable: "g++".to_string(),
            check: "{executable} --version".to_string(),
            run: "{executable} -o {output_path}/{program_name}{exe_suffix} {args} {input_path}"
                .to_string(),
        }),
        runner: None,
    }
}

fn python_language() -> Language {
    Language {
        language: "Python".to_string(),
        compiler: None,
        runner: Some(Runner {
            executable: "python".to_string(),
            check: "{executable} --version".to_string(),
            run: "{executable} {input_path}/{program_name}.py".to_string(),
        }),
    }
}

#[test]
fn command_splitting_follows_shell_rules() {
    let cs = string_to_command("g++ -O2 \"my file.cpp\"").unwrap();
    assert_eq!(cs.program, "g++");
    assert_eq!(cs.args, vec!["-O2".to_string(), "my file.cpp".to_string()]);
}

#[test]
fn command_splitting_rejects_bad_lines() {
    assert_eq!(
        string_to_command("unterminated \"quote").unwrap_err(),
        ToolchainError::MismatchedQuotes
    );
    assert_eq!(string_to_command("   ").unwrap_err(), ToolchainError::EmptyCommand);
}

#[test]
fn templates_substitute_known_placeholders() {
    let keys = vec![
        ("executable".to_string(), "g++".to_string()),
        ("args".to_string(), "-O2".to_string()),
    ];
    assert_eq!(
        render_command_template("{executable} {args} x.cpp", &keys).unwrap(),
        "g++ -O2 x.cpp"
    );
    assert_eq!(render_command_template("{{literal}}", &keys).unwrap(), "{literal}");
}

#[test]
fn templates_reject_unknown_placeholders() {
    let keys = vec![("executable".to_string(), "g++".to_string())];
    assert!(render_command_template("{executable} {typo}", &keys).is_none());
    assert!(render_command_template("{executable", &keys).is_none());
    assert!(render_command_template("}", &keys).is_none());
}

#[test]
fn extensions_follow_file_name_rules() {
    assert_eq!(ext_of("sol/main.cpp").unwrap(), "cpp");
    assert_eq!(ext_of("a.tar.gz").unwrap(), "gz");
    assert_eq!(ext_of("dir.d/noext"), None);
    assert_eq!(ext_of(".hidden"), None);
    assert_eq!(ext_of("win\\path\\prog.py").unwrap(), "py");
}

#[test]
fn registry_resolves_languages_by_extension() {
    let reg = LanguageRegistry {
        entries: vec![("cpp".to_string(), cpp_language()), ("py".to_string(), python_language())],
    };
    assert_eq!(reg.resolve("cpp").unwrap().language, "C++");
    assert_eq!(reg.resolve("py").unwrap().language, "Python");
    assert_eq!(reg.resolve("rs").unwrap_err(), ToolchainError::UnknownLanguage);
}

#[test]
fn language_resolution_reports_each_failure() {
    let reg = LanguageRegistry { entries: vec![("cpp".to_string(), cpp_language())] };
    assert_eq!(resolve_language(&reg, "sol/main.cpp").unwrap().language, "C++");
    assert_eq!(
        resolve_language(&reg, "sol/noext").unwrap_err(),
        ToolchainError::NoExtension
    );
    assert_eq!(
        resolve_language(&reg, "sol/main.rs").unwrap_err(),
        ToolchainError::UnknownLanguage
    );
}

#[test]
fn compile_rejects_bad_templates() {
    let lang = Language {
        language: "odd".to_string(),
        compiler: Some(Compiler {
            executable: "cc".to_string(),
            check: "{executable} --version".to_string(),
            run: "{executable} {nonsense}".to_string(),
        }),
        runner: None,
    };
    assert_eq!(
        build_compile_cmd(&lang, "a.c", "/t", "p", "", "").unwrap_err(),
        ToolchainError::UnknownPlaceholder
    );
    let lang2 = Language {
        language: "odd".to_string(),
        compiler: Some(Compiler {
            executable: "cc".to_string(),
            check: "{executable} --version".to_string(),
            run: "{executable} \"unterminated".to_string(),
        }),
        runner: None,
    };
    assert_eq!(
        build_compile_cmd(&lang2, "a.c", "/t", "p", "", "").unwrap_err(),
        ToolchainError::MismatchedQuotes
    );
}

#[test]
fn compile_command_renders_fully() {
    let lang = cpp_language();
    let cs = build_compile_cmd(&lang, "/src/a.cpp", "/tmp/work", "apples", "-O2 -std=c++17", "")
        .unwrap()
        .unwrap();
    assert_eq!(cs.program, "g++");
    assert_eq!(
        cs.args,
        vec![
            "-o".to_string(),
            "/tmp/work/apples".to_string(),
            "-O2".to_string(),
            "-std=c++17".to_string(),
            "/src/a.cpp".to_string(),
        ]
    );
}

#[test]
fn interpreted_language_has_no_compile_step() {
    let lang = python_language();
    assert!(build_compile_cmd(&lang, "a.py", "/t", "p", "", "").unwrap().is_none());
    let cs = build_run_cmd(&lang, "/t", "apples", "").unwrap().unwrap();
    assert_eq!(cs.program, "python");
    assert_eq!(cs.args, vec!["/t/apples.py".to_string()]);
}

#[test]
fn check_command_renders_executable() {
    let cs = build_check_cmd("g++", "{executable} --version").unwrap();
    assert_eq!(cs.program, "g++");
    assert_eq!(cs.args, vec!["--version".to_string()]);
}

#[test]
fn compile_args_lookup_by_extension() {
    let map = vec![
        ("cpp".to_string(), "-O2".to_string()),
        ("c".to_string(), "-O1".to_string()),
    ];
    assert_eq!(compile_args_for(&map, "cpp").unwrap(), "-O2");
    assert_eq!(compile_args_for(&map, "pas").unwrap_err(), ToolchainError::MissingCompileArgs);
}

#[test]
fn memory_limits_parse_or_default() {
    assert_eq!(resolve_memory_limit("512 MiB"), 512 * 1024 * 1024);
    assert_eq!(resolve_memory_limit("1GiB"), 1024 * 1024 * 1024);
    assert_eq!(resolve_memory_limit("64"), 64);
    assert!(memory_limit_known("512 MiB"));
    assert!(!memory_limit_known("a lot"));
    assert_eq!(resolve_memory_limit("a lot"), DEFAULT_MEMORY_LIMIT_BYTES);
    assert_eq!(DEFAULT_MEMORY_LIMIT_BYTES, 512 * 1024 * 1024);
}

#[test]
fn data_item_defaults_fill_in() {
    let d = DataItem { id: 3, score: 50, input: None, output: None }.finalize();
    assert_eq!(d.input.unwrap(), "3.in");
    assert_eq!(d.output.unwrap(), "3.ans");
    let d = DataItem { id: 3, score: 50, input: Some("".to_string()), output: Some("keep.txt".to_string()) }
        .finalize();
    assert_eq!(d.input.unwrap(), "3.in");
    assert_eq!(d.output.unwrap(), "keep.txt");
}

#[test]
fn sample_item_defaults_fill_in() {
    let s = SampleItem { id: 2, input: None, output: Some("".to_string()) }.finalize();
    assert_eq!(s.input.unwrap(), "2.in");
    assert_eq!(s.output.unwrap(), "2.ans");
}

#[test]
fn mixing_is_deterministic() {
    assert_eq!(mix_u128_complex(0), 0);
    assert_eq!(mix_u128_complex(1), 8580539489761175419);
    assert_eq!(mix_u128_complex(123456789123456789123456789), 17707855632283631058);
    assert_eq!(mix_u128_complex(1), mix_u128_complex(1));
}

#[test]
fn seeded_generator_is_available() {
    assert!(gen_rnd().is_some());
}

#[test]
fn fill_seeds_keeps_existing_and_adds_missing() {
    let mut rng = gen_rnd().unwrap();
    let mut seeds = vec![(1u32, 111u64), (3u32, 333u64)];
    let ids = vec![1u32, 2, 3, 4];
    fill_seeds(&mut seeds, &ids, &mut rng);
    assert_eq!(seeds[0], (1, 111));
    assert_eq!(seeds[1], (3, 333));
    assert_eq!(seeds.len(), 4);
    let new_ids: Vec<u32> = seeds[2..].iter().map(|p| p.0).collect();
    assert!(new_ids.contains(&2));
    assert!(new_ids.contains(&4));
}

#[test]
fn renderer_checkers_hold_their_setup() {
    let md = MarkdownChecker::new("ignored".to_string());
    assert!(md.check_compiler().is_ok());
    let ty = TypstChecker::new("/templates/typst".to_string());
    assert_eq!(ty.template_dir, "/templates/typst");
    assert_eq!(TypstChecker::required_files(), vec!["main.typ", "utils.typ"]);
}
