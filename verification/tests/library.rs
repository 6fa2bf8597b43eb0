use wrapper::{
    apply_filter, args_char_limit_from, begin_run, check_help_flags, check_version_flags,
    embedded_flag_value, executable_lookup, executable_name_from_file_name, filter_args,
    filter_pack_available, find_options_end, flag_takes_separate_value, flags_with_value,
    get_args_filter_pack, get_executable_names, get_executable_paths, get_main_and_deputy_executable_paths,
    get_target_classification, is_source_arg, locate_last_flag, parse_args,
    response_file_argument, response_file_name, response_file_needed, response_file_text,
    source_executable_name, split_executable_names, usage_lines, version_line,
    ExecutableFamily, ExecutableKind, ExecutableLookup, FilterConfig, FlagPattern,
    RuntimeSettings,
};
use wrapper::strings::{decimal_string, parse_usize, split_white_space, str_replace, str_trim};
use wrapper::usage::{box_row, center_text, paint, section_row, visible_len, wrap_text, usage_pair};

fn strings(v: &[&str]) -> Vec<String> {
    v.iter().map(|s| s.to_string()).collect()
}

fn cfg() -> FilterConfig {
    FilterConfig { args_char_limit: 1_000_000, ..FilterConfig::default() }
}

fn never_match() -> FlagPattern {
    FlagPattern::compile(r"\P{any}").unwrap()
}

// ---- patterns ------------------------------------------------------------

#[test]
fn pattern_compile_rejects_invalid_regex() {
    assert!(FlagPattern::compile("(unclosed").is_none());
    let p = FlagPattern::compile("^[-/](Fd|Fo)").unwrap();
    assert_eq!(p.as_str(), "^[-/](Fd|Fo)");
}

#[test]
fn pattern_matches_and_captures() {
    let p = FlagPattern::compile("^[-/](Fd|Fo)").unwrap();
    assert!(p.is_match("/Fdout"));
    assert!(!p.is_match("-c"));
    assert_eq!(p.first_match("-Foobj"), Some("-Fo".to_string()));
    assert_eq!(p.first_match("main.c"), None);
}

// ---- classification ---------------------------------------------------------

#[test]
fn clang_cl_is_msvc_unless_routed_to_llvm() {
    assert_eq!(get_target_classification("clang-cl", false), (ExecutableFamily::MSVC, ExecutableKind::Compiler));
    assert_eq!(get_target_classification("clang-cl", true), (ExecutableFamily::LLVM, ExecutableKind::Compiler));
}

#[test]
fn classification_by_keywords() {
    assert_eq!(get_target_classification("/usr/bin/gcc", false), (ExecutableFamily::GCC, ExecutableKind::Compiler));
    assert_eq!(get_target_classification("link", false), (ExecutableFamily::MSVC, ExecutableKind::Linker));
    assert_eq!(get_target_classification("lld-link", false), (ExecutableFamily::LLVM, ExecutableKind::Linker));
    assert_eq!(get_target_classification("clang++", false), (ExecutableFamily::LLVM, ExecutableKind::Compiler));
    assert_eq!(get_target_classification("ld", false), (ExecutableFamily::GCC, ExecutableKind::Linker));
    assert_eq!(get_target_classification("ld.lld", false), (ExecutableFamily::LLVM, ExecutableKind::Linker));
    assert_eq!(get_target_classification("hipcc", false).1, ExecutableKind::Compiler);
    assert_eq!(get_target_classification("llvm-ar", false).0, ExecutableFamily::LLVM);
    assert_eq!(get_target_classification("UNKNOWN", false), (ExecutableFamily::Unknown, ExecutableKind::Unknown));
}

#[test]
fn combined_names_with_the_documented_tool_keywords() {
    let mut args = strings(&["-c", "a.c"]);
    let names = get_executable_names(&"sccache-hipcc".to_string(), &mut args);
    assert_eq!(names, ("sccache".to_string(), "hipcc".to_string()));
    assert_eq!(args, strings(&["-c", "a.c"]));
    let mut args = strings(&["a.o"]);
    let names = get_executable_names(&"ccache-ld".to_string(), &mut args);
    assert_eq!(names, ("ccache".to_string(), "ld".to_string()));
    assert_eq!(args, strings(&["a.o"]));
}

#[test]
fn filter_pack_of_llvm_compiler() {
    let c = (ExecutableFamily::LLVM, ExecutableKind::Compiler);
    assert!(filter_pack_available(c));
    let (bad, swaps, extra) = get_args_filter_pack(c);
    assert!(bad.is_match("/W4"));
    assert!(bad.is_match("-clang:-permissive-"));
    assert!(bad.is_match("/EHsc"));
    assert!(!bad.is_match("-O2"));
    assert_eq!(swaps.len(), 7);
    assert!(swaps[0].0.is_match("/MD") && swaps[0].0.is_match("/MDd"));
    assert_eq!(swaps[0].1, "-fms-extensions");
    assert_eq!(swaps[1].1, "-g");
    assert_eq!(extra, "-D_USE_MATH_DEFINES -D_CRT_SECURE_NO_WARNINGS -w");
}

#[test]
fn filter_pack_of_msvc_linker() {
    let (bad, swaps, extra) = get_args_filter_pack((ExecutableFamily::MSVC, ExecutableKind::Linker));
    assert!(bad.is_match("/Werror"));
    assert!(bad.is_match("/INCREMENTAL:NO"));
    assert!(!bad.is_match("/INCREMENTAL:NOPE"));
    assert_eq!(swaps.len(), 3);
    assert!(swaps[0].0.is_match("/LTCG"));
    assert_eq!(swaps[0].1, "-flto");
    assert!(swaps[1].0.is_match("/MANIFEST:EMBED,ID=2"));
    assert_eq!(swaps[1].1, "/MANIFEST:NO");
    assert!(swaps[2].0.is_match("/INCREMENTAL") && swaps[2].0.is_match("/INCREMENTAL:YES"));
    assert_eq!(swaps[2].1, "/INCREMENTAL:NO");
    assert_eq!(extra, "");
}

#[test]
fn filter_packs_of_the_other_classifications() {
    let (_, _, extra) = get_args_filter_pack((ExecutableFamily::LLVM, ExecutableKind::Linker));
    assert_eq!(extra, "/MANIFEST:NO");
    let (bad, _, extra) = get_args_filter_pack((ExecutableFamily::GCC, ExecutableKind::Linker));
    assert!(bad.is_match("-Werror"));
    assert_eq!(extra, "");
    let (_, swaps, extra) = get_args_filter_pack((ExecutableFamily::MSVC, ExecutableKind::Compiler));
    assert_eq!(swaps[0].1, "/Z7");
    assert!(extra.split_whitespace().any(|f| f == "-FS"));
    let (_, _, extra) = get_args_filter_pack((ExecutableFamily::GCC, ExecutableKind::Compiler));
    assert_eq!(extra, "-w");
}

// ---- parser -----------------------------------------------------------------

#[test]
fn value_taking_flags_follow_the_parser() {
    assert!(flag_takes_separate_value("-o", ExecutableFamily::LLVM));
    assert!(flag_takes_separate_value("-I", ExecutableFamily::GCC));
    assert!(flag_takes_separate_value("-MT", ExecutableFamily::LLVM));
    assert!(!flag_takes_separate_value("-c", ExecutableFamily::LLVM));
    assert!(!flag_takes_separate_value("-DDEBUG", ExecutableFamily::LLVM));
    assert!(flag_takes_separate_value("/Fo", ExecutableFamily::MSVC));
    assert!(!flag_takes_separate_value("/Fofoo.obj", ExecutableFamily::MSVC));
}

#[test]
fn parse_args_extracts_defines_and_output() {
    let parsed = parse_args(&strings(&["-DFOO", "-c", "a.c", "-o", "a.o"]), ".", ExecutableFamily::LLVM);
    assert_eq!(parsed.defines, vec!["FOO".to_string()]);
    assert_eq!(parsed.output_file, Some("a.o".to_string()));
    assert_eq!(parsed.source_file, "a.c");
}

#[test]
fn embedded_values_come_from_the_parser() {
    assert_eq!(embedded_flag_value("-DDEBUG", ExecutableFamily::LLVM), Some("DEBUG".to_string()));
    assert_eq!(embedded_flag_value("/DNDEBUG", ExecutableFamily::MSVC), Some("NDEBUG".to_string()));
    assert_eq!(embedded_flag_value("-UFOO", ExecutableFamily::GCC), Some("FOO".to_string()));
    assert_eq!(embedded_flag_value("-c", ExecutableFamily::LLVM), None);
    assert_eq!(embedded_flag_value("-std=c++17", ExecutableFamily::LLVM), Some("c++17".to_string()));
    assert_eq!(embedded_flag_value("-fsanitize=address", ExecutableFamily::GCC), Some("address".to_string()));
    assert_eq!(embedded_flag_value("-std=", ExecutableFamily::LLVM), None);
    assert_eq!(embedded_flag_value("-O2", ExecutableFamily::LLVM), None);
    let located = locate_last_flag(&strings(&["a.c", "-std=c++17"]), ExecutableFamily::LLVM).unwrap();
    assert_eq!(located.embedded_value, Some("c++17".to_string()));
}

#[test]
fn options_end_skips_flag_value_pairs() {
    let args = strings(&["-o", "out.o", "-c", "a.c", "-O2"]);
    assert_eq!(find_options_end(&args, ExecutableFamily::LLVM), 3);
    let args = strings(&["-c", "--", "-x"]);
    assert_eq!(find_options_end(&args, ExecutableFamily::LLVM), 1);
    assert_eq!(find_options_end(&[], ExecutableFamily::LLVM), 0);
}

#[test]
fn last_flag_ignores_positional_tail_and_lone_dash() {
    let args = strings(&["-c", "a.c", "-o", "a.o", "--", "-x"]);
    let located = locate_last_flag(&args, ExecutableFamily::LLVM).unwrap();
    assert_eq!(located.flag_index, 2);
    assert_eq!(located.value_index, Some(3));
    assert_eq!(located.embedded_value, None);

    let args = strings(&["-DFOO", "-", "a.c"]);
    let located = locate_last_flag(&args, ExecutableFamily::LLVM).unwrap();
    assert_eq!(located.flag_index, 0);
    assert_eq!(located.value_index, None);
    assert_eq!(located.embedded_value, Some("FOO".to_string()));

    assert!(locate_last_flag(&strings(&["a.c", "-"]), ExecutableFamily::LLVM).is_none());
}

#[test]
fn source_files_by_extension() {
    assert!(is_source_arg("main.cpp"));
    assert!(is_source_arg("boot.S"));
    assert!(is_source_arg("x.asm"));
    assert!(!is_source_arg("main.o"));
    assert!(!is_source_arg("-c"));
}

#[test]
fn value_flag_tables() {
    assert!(flags_with_value(ExecutableFamily::MSVC).contains(&"/Fo"));
    assert!(!flags_with_value(ExecutableFamily::MSVC).contains(&"-MT"));
    assert!(flags_with_value(ExecutableFamily::GCC).contains(&"-MT"));
    assert_eq!(flags_with_value(ExecutableFamily::Unknown), flags_with_value(ExecutableFamily::LLVM));
}

// ---- pipeline ---------------------------------------------------------------

#[test]
fn empty_arguments_fall_back_to_version() {
    let result = apply_filter(vec![], &cfg(), &never_match(), &[], "", ExecutableFamily::LLVM);
    assert_eq!(result, vec!["--version".to_string()]);
    let skip = FilterConfig { skip_version_on_empty: true, ..cfg() };
    let result = apply_filter(vec![], &skip, &never_match(), &[], "", ExecutableFamily::LLVM);
    assert!(result.is_empty());
}

#[test]
fn extras_already_present_are_not_repeated() {
    let result = apply_filter(
        strings(&["-w", "-c", "a.c"]),
        &cfg(),
        &never_match(),
        &[],
        "-w -D_FOO",
        ExecutableFamily::LLVM,
    );
    assert_eq!(result, strings(&["-w", "-D_FOO", "-c", "a.c"]));
}

#[test]
fn extras_go_before_dash_dash_when_no_flag() {
    let result = apply_filter(strings(&["a.c", "--", "-x"]), &cfg(), &never_match(), &[], "-w", ExecutableFamily::LLVM);
    assert_eq!(result, strings(&["-w", "a.c", "--", "-x"]));
}

#[test]
fn skipping_all_steps_keeps_arguments() {
    let skip = FilterConfig {
        skip_split: true,
        skip_bad: true,
        skip_swap: true,
        skip_add: true,
        ..cfg()
    };
    let bad = FlagPattern::compile("^-O2$").unwrap();
    let args = strings(&["/Fdx", "-O2", "a.c"]);
    assert_eq!(apply_filter(args.clone(), &skip, &bad, &[], "-w", ExecutableFamily::LLVM), args);
}

#[test]
fn swaps_apply_pair_after_pair() {
    let swaps = vec![
        (FlagPattern::compile("^/Zi$").unwrap(), "/Z7".to_string()),
        (FlagPattern::compile("^/Z7$").unwrap(), "-g".to_string()),
    ];
    let result = apply_filter(strings(&["/Zi", "a.c"]), &cfg(), &never_match(), &swaps, "", ExecutableFamily::LLVM);
    assert_eq!(result, strings(&["-g", "a.c"]));
}

#[test]
fn full_llvm_compiler_pack() {
    let (bad, swaps, extra) = get_args_filter_pack((ExecutableFamily::LLVM, ExecutableKind::Compiler));
    let config = FilterConfig { skip_split: true, ..cfg() };
    let result = filter_args(strings(&["/W4", "/Zi", "/O2", "-c", "a.c"]), &bad, &swaps, &extra, &config, ExecutableFamily::LLVM);
    assert_eq!(
        result,
        strings(&["-g", "-O2", "-D_USE_MATH_DEFINES", "-D_CRT_SECURE_NO_WARNINGS", "-w", "-c", "a.c"])
    );
    let result = filter_args(strings(&["/MD", "/EHsc", "a.c"]), &bad, &swaps, &extra, &config, ExecutableFamily::LLVM);
    assert_eq!(
        result,
        strings(&["-D_USE_MATH_DEFINES", "-D_CRT_SECURE_NO_WARNINGS", "-w", "-fms-extensions", "a.c"])
    );
}

#[test]
fn pure_link_gets_no_extra_flags() {
    let link = strings(&["a.o", "b.o", "-o", "app"]);
    let result = apply_filter(link.clone(), &cfg(), &never_match(), &[], "-D_FOO", ExecutableFamily::LLVM);
    assert_eq!(result, link);
    let link = strings(&["-o", "app.exe", "main.obj"]);
    let result = apply_filter(link.clone(), &cfg(), &never_match(), &[], "/MANIFEST:NO", ExecutableFamily::MSVC);
    assert_eq!(result, link);
    // Objects alone, without `-o`, or with any other flag, are no pure link.
    let result = apply_filter(strings(&["a.o", "b.o"]), &cfg(), &never_match(), &[], "-D_FOO", ExecutableFamily::LLVM);
    assert_eq!(result, strings(&["-D_FOO", "a.o", "b.o"]));
    let result = apply_filter(strings(&["-g", "a.o", "-o", "app"]), &cfg(), &never_match(), &[], "-D_FOO", ExecutableFamily::LLVM);
    assert_eq!(result, strings(&["-g", "a.o", "-D_FOO", "-o", "app"]));
}

#[test]
fn splitting_keeps_the_text() {
    let args = strings(&["-Fdpdb", "/Foobj\\x.obj", "-Fo", "a.c"]);
    let result = apply_filter(args.clone(), &cfg(), &never_match(), &[], "", ExecutableFamily::MSVC);
    assert_eq!(result.concat(), args.concat());
    assert_eq!(result, strings(&["-Fd", "pdb", "/Fo", "obj\\x.obj", "-Fo", "a.c"]));
}

// ---- configuration and response files ------------------------------------------

#[test]
fn char_limit_from_environment_value() {
    assert_eq!(args_char_limit_from(None), 30000);
    assert_eq!(args_char_limit_from(Some(" 42 ")), 42);
    assert_eq!(args_char_limit_from(Some("+7")), 7);
    assert_eq!(args_char_limit_from(Some("-1")), 30000);
    assert_eq!(args_char_limit_from(Some("12a")), 30000);
    assert_eq!(args_char_limit_from(Some("")), 30000);
    assert_eq!(args_char_limit_from(Some("99999999999999999999999")), 30000);
}

#[test]
fn switches_build_the_config() {
    let c = FilterConfig::from_switches(false, false, true, false, false, false, true, Some("10"));
    assert!(c.skip_split);
    assert!(c.skip_bad);
    assert!(!c.skip_swap);
    assert!(c.force_response_files);
    assert_eq!(c.args_char_limit, 10);
    let all = FilterConfig::from_switches(true, true, false, false, false, false, false, None);
    assert!(all.skip_split && all.skip_bad && all.skip_swap && all.skip_add);
    assert_eq!(all.args_char_limit, 30000);
}

#[test]
fn response_file_decision() {
    let limit = FilterConfig { args_char_limit: 5, ..FilterConfig::default() };
    assert!(!response_file_needed(&strings(&["ab", "cd"]), &limit)); // "ab cd" has 5 bytes
    assert!(response_file_needed(&strings(&["ab", "cde"]), &limit));
    assert!(!response_file_needed(&strings(&["@file", "cdefghij"]), &limit));
    let forced = FilterConfig { force_response_files: true, ..cfg() };
    assert!(response_file_needed(&strings(&["a", "b"]), &forced));
    assert!(response_file_needed(&strings(&["a"]), &forced));
    assert!(!response_file_needed(&vec![], &forced));
    assert!(!response_file_needed(&strings(&["@a"]), &forced));
    let bytes = FilterConfig { args_char_limit: 2, ..FilterConfig::default() };
    assert!(response_file_needed(&strings(&["\u{e9}\u{e9}"]), &bytes)); // 4 bytes, 2 chars
}

#[test]
fn response_file_pieces() {
    assert_eq!(response_file_text(&strings(&["-c", "a b.c", "-o"])), "-c\na b.c\n-o");
    assert_eq!(response_file_text(&vec![]), "");
    assert_eq!(response_file_name(1234), "@wrapper_1234.rsp");
    assert_eq!(response_file_name(0), "@wrapper_0.rsp");
    assert_eq!(response_file_argument("/tmp/x.rsp"), "@/tmp/x.rsp");
}

// ---- executables and runs ---------------------------------------------------

#[test]
fn executable_paths_and_roles() {
    let paths = get_executable_paths(&(None, Some("C:\\LLVM\\bin\\clang.exe".to_string())));
    assert_eq!(paths, ("UNKNOWN".to_string(), "C:/LLVM/bin/clang.exe".to_string()));
    let (main, deputy) = get_main_and_deputy_executable_paths(&paths);
    assert_eq!(main, "C:/LLVM/bin/clang.exe");
    assert_eq!(deputy, "C:/LLVM/bin/clang.exe");
    let (main, deputy) = get_main_and_deputy_executable_paths(&("sccache".to_string(), "clang".to_string()));
    assert_eq!(main, "sccache");
    assert_eq!(deputy, "clang");
}

#[test]
fn lookup_decisions() {
    assert_eq!(executable_lookup("UNKNOWN", false), ExecutableLookup::NotFound);
    assert_eq!(executable_lookup("clang-rs", false), ExecutableLookup::AsIs);
    assert_eq!(executable_lookup("clang", true), ExecutableLookup::AsIs);
    assert_eq!(executable_lookup("clang", false), ExecutableLookup::Search);
}

#[test]
fn names_from_findings() {
    let mut args = strings(&["x"]);
    assert_eq!(split_executable_names(&"ccache".to_string(), true, true, &mut args), ("UNKNOWN".to_string(), "UNKNOWN".to_string()));
    assert_eq!(args, strings(&["x"]));
}

#[test]
fn executable_name_from_source_file() {
    assert_eq!(executable_name_from_file_name("g++.rs"), "g++");
    assert_eq!(executable_name_from_file_name("a.rs.rs"), "a");
    assert_eq!(source_executable_name("src/clang-cl.rs"), Some("clang-cl".to_string()));
    assert_eq!(source_executable_name("a/b/lld-link.rs"), Some("lld-link".to_string()));
    assert_eq!(source_executable_name("gcc"), Some("gcc".to_string()));
    assert_eq!(source_executable_name("/opt/w/src/clang.rs"), Some("clang".to_string()));
    assert_eq!(source_executable_name("C:/w/src/g++.rs"), Some("g++".to_string()));
}

#[test]
fn a_whole_run() {
    let pending = begin_run("src/sccache-clang.rs".to_string(), "sccache-clang".to_string(), strings(&["/Zi", "-c", "a.c"])).unwrap();
    assert_eq!(pending.target_executable_names, ("sccache".to_string(), "clang".to_string()));
    assert_eq!(pending.wrapper_lookup, ExecutableLookup::Search);
    let settings = RuntimeSettings { passthrough: false, clang_cl_is_llvm: false, filter: cfg() };
    let planned = pending
        .resolve((Some("/opt/sccache".to_string()), Some("/opt/llvm\\clang".to_string())), &settings)
        .unwrap();
    assert_eq!(planned.target_classification, (ExecutableFamily::LLVM, ExecutableKind::Compiler));
    assert_eq!(planned.main_exe, "/opt/sccache");
    assert_eq!(planned.deputy_exe, "/opt/llvm/clang");
    assert!(!planned.response_file_wanted);
    let runtime = planned.finish(None);
    assert_eq!(runtime.final_args[0], "/opt/llvm/clang");
    assert_eq!(runtime.final_args[1], "-g");
    assert_eq!(runtime.final_args.last().unwrap(), "a.c");
    assert_eq!(runtime.expect, "/opt/llvm/clang died");
}

#[test]
fn a_passthrough_run_with_response_file() {
    let pending = begin_run("src/gcc.rs".to_string(), "gcc".to_string(), strings(&["/Zi", "a.c"])).unwrap();
    assert_eq!(pending.target_executable_names, ("UNKNOWN".to_string(), "gcc".to_string()));
    let settings = RuntimeSettings { passthrough: true, clang_cl_is_llvm: false, filter: cfg() };
    let planned = pending.resolve((None, Some("/usr/bin/gcc".to_string())), &settings).unwrap();
    assert_eq!(planned.filtered_args, strings(&["/Zi", "a.c"]));
    let runtime = planned.finish(Some("/tmp/r.rsp".to_string()));
    assert_eq!(runtime.final_args, strings(&["@/tmp/r.rsp"]));
    assert_eq!(runtime.main_exe, "/usr/bin/gcc");
}

#[test]
fn unknown_tool_cannot_be_filtered() {
    let pending = begin_run("src/foo.rs".to_string(), "foo".to_string(), strings(&["a"])).unwrap();
    let settings = RuntimeSettings { passthrough: false, clang_cl_is_llvm: false, filter: cfg() };
    assert!(pending.resolve((None, None), &settings).is_none());
}

#[test]
fn bare_wrapper_without_arguments_is_refused() {
    assert!(begin_run("src/sccache.rs".to_string(), "sccache".to_string(), vec![]).is_none());
}

// ---- usage --------------------------------------------------------------------

#[test]
fn help_and_version_flags() {
    let exe = "g++-rs".to_string();
    assert!(check_help_flags(&exe, &strings(&["--help"])));
    assert!(check_help_flags(&exe, &strings(&["--usage", "x"])));
    assert!(check_help_flags(&exe, &strings(&["-c", "--help"])));
    assert!(check_help_flags(&exe, &strings(&["-c", "a.c", "-h"])));
    assert!(!check_help_flags(&exe, &strings(&["-c", "a.c"])));
    assert!(!check_help_flags(&exe, &[]));
    assert!(check_version_flags(&exe, &strings(&["-v"])));
    assert!(check_version_flags(&exe, &strings(&["-c", "--version"])));
    assert!(!check_version_flags(&exe, &strings(&["--verbose"])));
    assert!(!check_version_flags(&exe, &[]));
    assert_eq!(version_line("g++-rs", "1.2.3"), "g++-rs v1.2.3");
}

#[test]
fn visible_length_skips_escapes() {
    assert_eq!(visible_len("\u{1b}[1mab\u{1b}[0m"), 2);
    assert_eq!(visible_len(&paint("abc", "\u{1b}[36m")), 3);
    assert_eq!(paint("x", "C"), "Cx\u{1b}[0m");
}

#[test]
fn centering_and_rows() {
    assert_eq!(center_text("ab", 7), "  ab   ");
    assert_eq!(center_text("abcdef", 3), "abcdef");
    assert_eq!(box_row("hi", 5), "\u{2551} hi    \u{2551}");
    let row = section_row("T", 5);
    assert_eq!(row, "\u{2560}\u{2550}\u{2550}\u{1b}[1m\u{1b}[33m T \u{1b}[0m\u{2550}\u{2550}\u{2563}");
}

#[test]
fn wrapping_at_word_boundaries() {
    assert_eq!(wrap_text("aa bb cc", 5), strings(&["aa bb", "cc"]));
    assert_eq!(wrap_text("aaaaaa b", 3), strings(&["aaaaaa", "b"]));
    assert_eq!(wrap_text("  x  ", 0), strings(&["  x  "]));
    assert_eq!(wrap_text("   ", 4), Vec::<String>::new());
}

#[test]
fn usage_rows_align_continuations() {
    let rows = usage_pair("NAME", "one two three", 4, 16);
    assert_eq!(rows.len(), 3);
    assert!(rows[1].starts_with("          two"));
    // Rows: one per wrapped line; the first shows name_w + 6 columns before its line,
    // the others are indented by name_w + 6 spaces.
    let rows = usage_pair("X", "aaa bbb", 2, 14);
    assert_eq!(rows.len(), wrap_text("aaa bbb", 6).len());
    assert!(rows[0].ends_with("aaa"));
    assert_eq!(visible_len(&rows[0]), 8 + 3);
    assert_eq!(rows[1], format!("{}bbb", " ".repeat(8)));
}

#[test]
fn wrapped_lines_are_filled_greedily() {
    let width = 11;
    let lines = wrap_text("alpha beta gamma delta epsilon zeta", width);
    for (i, line) in lines.iter().enumerate() {
        assert!(!line.is_empty());
        assert!(visible_len(line) <= width || !line.contains(' '));
        if i + 1 < lines.len() {
            let next_first = lines[i + 1].split(' ').next().unwrap();
            assert!(visible_len(line) + 1 + visible_len(next_first) > width);
        }
    }
    let lines = wrap_text("\u{1b}[1mbold\u{1b}[0m word", 9);
    assert_eq!(lines, strings(&["\u{1b}[1mbold\u{1b}[0m word"]));
}

#[test]
fn usage_box_has_borders() {
    let lines = usage_lines("clang-rs.exe", "0.1.0");
    assert!(lines[0].starts_with('\u{2554}'));
    assert!(lines.last().unwrap().starts_with('\u{255a}'));
    assert!(lines.iter().any(|l| l.contains("clang-rs.exe v0.1.0")));
    assert!(lines.iter().any(|l| l.contains("/path/to/clang-rs.log.")));
    assert!(lines.iter().any(|l| l.contains("FILTERING")));
}

// ---- strings --------------------------------------------------------------------

#[test]
fn string_helpers() {
    assert_eq!(split_white_space(" a\tb\u{3000}c  "), strings(&["a", "b", "c"]));
    assert_eq!(str_trim("\u{a0} x y \n"), "x y");
    assert_eq!(parse_usize("0018"), Some(18));
    assert_eq!(parse_usize("+"), None);
    assert_eq!(decimal_string(4294967295), "4294967295");
    assert_eq!(str_replace("a<p>b<p>", "<p>", "1"), "a1b1");
}

#[test]
fn empty_replacement_drops_the_flag() {
    let swaps = vec![(FlagPattern::compile("^/DEBUG:FASTLINK$").unwrap(), String::new())];
    let result = apply_filter(strings(&["/DEBUG:FASTLINK", "a.obj"]), &cfg(), &never_match(), &swaps, "", ExecutableFamily::MSVC);
    assert_eq!(result, strings(&["a.obj"]));
}

#[test]
fn wrapped_lines_keep_the_words() {
    let text = "alpha  beta gamma\tdelta epsilon zeta";
    let lines = wrap_text(text, 11);
    assert_eq!(lines, strings(&["alpha beta", "gamma delta", "epsilon", "zeta"]));
    assert_eq!(lines.join(" "), split_white_space(text).join(" "));
}

#[test]
fn decimal_text_reads_back() {
    for n in [0u32, 7, 10, 123456, u32::MAX] {
        assert_eq!(parse_usize(&decimal_string(n)), Some(n as usize));
    }
}
