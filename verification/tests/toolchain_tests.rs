use galaxc::toolchain::{choose_compiler, format_source, project_config, project_main_source, trim_text};

#[test]
fn formatter_indents_blocks() {
    let src = "op launch() =>\nif x =>\nreturn 1\n  else =>\n return 2\nend\nend\n\n\n";
    assert_eq!(
        format_source(src),
        "op launch() =>\n    if x =>\n        return 1\n    else =>\n        return 2\n    end\nend\n"
    );
}

#[test]
fn formatter_keeps_blank_lines_and_never_dedents_below_zero() {
    assert_eq!(format_source("end\n\n  x  \n"), "end\n\nx\n");
    assert_eq!(format_source(""), "");
    assert_eq!(format_source("\n\n\n"), "\n");
    assert_eq!(format_source("ending\n"), "ending\n");
}

#[test]
fn trimming_uses_unicode_white_space() {
    assert_eq!(trim_text("\u{3000} a b \t"), "a b");
    assert_eq!(trim_text("   "), "");
}

#[test]
fn new_project_files() {
    assert_eq!(
        project_main_source("probe"),
        "--! probe -- a GalaxC project\n\norbit main\n\n@effect(io)\nop launch() =>\n    console.write(\"GalaxC online. All systems nominal.\")\nend\n"
    );
    assert_eq!(
        project_config("probe"),
        "[project]\nname = \"probe\"\nversion = \"0.1.0\"\nentry = \"src/main.gxc\"\n"
    );
}

#[test]
fn compiler_choice() {
    assert_eq!(choose_compiler("tcc", &vec![true, true, true, true, true]), "tcc");
    assert_eq!(choose_compiler("tcc", &vec![false, false, true, true, false]), "clang");
    assert_eq!(choose_compiler("tcc", &vec![false, false, false, false, true]), "cl");
    assert_eq!(choose_compiler("tcc", &vec![false; 5]), "tcc");
}

#[test]
fn formatting_twice_changes_nothing() {
    let sources = [
        "op launch() =>\nif x =>\nreturn 1\n  else =>\n return 2\nend\nend\n\n\n",
        "end\n\n  x  \r\n\n",
        "\u{a0}struct A =>\n\tname: Text\r\nend",
        "",
        "\n\n",
    ];
    for src in sources.iter() {
        let once = format_source(src);
        assert_eq!(format_source(&once), once);
    }
}
