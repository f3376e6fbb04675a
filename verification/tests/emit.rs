use argen::codegen::Spec;
use argen::item::{CType, NonPositionalItem, PositionalItem};
use argen::selector::alloc_selectors;
use argen::text::{c_quote, dec_string};

fn pos(c_var: &str, c_type: CType, help_name: &str) -> PositionalItem {
    PositionalItem {
        c_var: c_var.to_string(),
        c_type,
        help_name: help_name.to_string(),
        help_descr: None,
        required: None,
        default: None,
        multi: None,
    }
}

fn opt(c_var: &str, c_type: CType, long: &str) -> NonPositionalItem {
    NonPositionalItem {
        c_var: c_var.to_string(),
        c_type,
        long: long.to_string(),
        help_name: None,
        help_descr: None,
        aliases: None,
        short: None,
        required: None,
        default: None,
        flag: None,
    }
}

fn scenario_a() -> Spec {
    let mut p = pos("name", CType::Chars, "name");
    p.required = Some(true);
    let mut o = opt("verbose", CType::Int, "verbose");
    o.flag = Some(true);
    Spec { positional: vec![p], non_positional: vec![o] }
}

#[test]
fn scenario_a_full_output() {
    let s = scenario_a();
    assert!(s.validate().is_ok());
    let out = s.gen();
    let mut expected = String::new();
    expected.push_str("#include<stdlib.h>\n#include<stdio.h>\n#include<string.h>\n#include<getopt.h>\n");
    expected.push_str("\n\n");
    expected.push_str("static void usage(const char *progname) {\n");
    expected.push_str("\tprintf(\"usage: %s [options] name\\n%s\", progname,\n");
    expected.push_str("\t       \"  name\\n\"\n");
    expected.push_str("\t       \"  -h  --help\\n\"\n");
    expected.push_str("\t       \"        print this usage and exit\\n\"\n");
    expected.push_str("\t       \"      --verbose\\n\"\n");
    expected.push_str("\t       );\n}\n");
    expected.push_str("\n");
    expected.push_str("void parse_args(int argc, char **argv, int *verbose, char* *name) {\n");
    expected.push_str("\tstatic struct option longopts[] = {\n");
    expected.push_str("\t\t{\"verbose\", no_argument, 0, 2},\n");
    expected.push_str("\t\t{\"help\", 0, 0, 'h'},\n");
    expected.push_str("\t\t{0, 0, 0, 0}\n\t};\n");
    expected.push_str("\tint ch;\n");
    expected.push_str("\twhile ((ch = getopt_long(argc, argv, \"h\", longopts, NULL)) != -1) {\n");
    expected.push_str("\t\tswitch (ch) {\n");
    expected.push_str("\t\tcase 2:\n\t\t\t*verbose = 1;\n\t\t\tbreak;\n");
    expected.push_str("\t\tcase 0:\n\t\t\tbreak;\n");
    expected.push_str("\t\tcase 'h':\n\t\tdefault:\n\t\t\tusage(argv[0]);\n\t\t\texit(1);\n");
    expected.push_str("\t\t}\n\t}\n");
    expected.push_str("\n\tif (argc-optind < 1) {\n\t\tusage(argv[0]);\n\t\texit(1);\n\t}\n");
    expected.push_str("\targv += optind;\n\targc -= optind;\n\n");
    expected.push_str("\t*name = argv[0];\n\targv++;\n");
    expected.push_str("\targc--;\n\n");
    expected.push_str("}\n");
    expected.push_str("\n");
    expected.push_str("int main(int argc, char **argv) {\n");
    expected.push_str("\tint verbose;\n");
    expected.push_str("\tchar* name;\n");
    expected.push_str("\n\tparse_args(argc, argv, &verbose, &name);\n");
    expected.push_str("\n\t/* call your code here */\n\treturn 0;\n}\n");
    assert_eq!(out, expected);
}

#[test]
fn scenario_a_usage_and_gate() {
    let s = scenario_a();
    let out = s.gen();
    // `name` stands un-bracketed on the usage line.
    assert!(out.contains("usage: %s [options] name\\n%s"));
    assert!(!out.contains("[name]"));
    // `--verbose` takes no value placeholder.
    assert!(out.contains("--verbose\\n\"\n"));
    assert!(!out.contains("--verbose <"));
    // Zero positional arguments trip the usage-and-exit gate.
    assert!(out.contains("\tif (argc-optind < 1) {\n\t\tusage(argv[0]);\n\t\texit(1);\n\t}\n"));
}

#[test]
fn scenario_b_default_substitution() {
    let mut p = pos("name", CType::Chars, "name");
    p.default = Some("world".to_string());
    let s = Spec { positional: vec![p], non_positional: vec![] };
    assert!(s.validate().is_ok());
    let out = s.gen();
    // The default holder and its substitution when nothing was consumed.
    assert!(out.contains("\tstatic char* name__default = \"world\";\n"));
    assert!(out.contains("\tint name__isset = 0;\n"));
    assert!(out.contains("\tif (!name__isset) {\n\t\t*name = name__default;\n\t}\n"));
    // The optional consumption sets the tracking flag only when a token is there.
    assert!(out.contains(
        "\tif (argc > 0) {\n\t\t*name = argv[0];\n\t\tname__isset = 1;\n\t\targv++; argc--;\n\t}\n"
    ));
    // No required gate at all: zero arguments are fine.
    assert!(!out.contains("argc-optind"));
    // The usage line brackets the optional parameter.
    assert!(out.contains("usage: %s [options] [name]\\n%s"));
}

#[test]
fn scenario_c_required_option() {
    let mut o = opt("output", CType::Chars, "output");
    o.required = Some(true);
    let s = Spec { positional: vec![], non_positional: vec![o] };
    assert!(s.validate().is_ok());
    let out = s.gen();
    // Omitting the option trips usage-and-exit after the loop.
    assert!(out.contains("\tif (!output__isset) {\n\t\tusage(argv[0]);\n\t\texit(1);\n\t}\n"));
    // Its long form takes a value and sets the tracking flag.
    assert!(out.contains("\t\t{\"output\", required_argument, 0, 2},\n"));
    assert!(out.contains("\t\tcase 2:\n\t\t\t*output = optarg;\n\t\t\toutput__isset = 1;\n\t\t\tbreak;\n"));
    assert!(out.contains("\tint output__isset = 0;\n"));
}

#[test]
fn scenario_d_trailing_multi() {
    let mut p = pos("files", CType::Chars, "files");
    p.required = Some(true);
    p.multi = Some(true);
    let s = Spec { positional: vec![p], non_positional: vec![] };
    assert!(s.validate().is_ok());
    let out = s.gen();
    // The parameter is passed as an array with a count.
    assert!(out.contains("void parse_args(int argc, char **argv, char* **files, size_t *files__size) {\n"));
    // All remaining tokens are captured, in order, with a matching count.
    assert!(out.contains("\t*files = argv;\n\t*files__size = argc;\n"));
    // One token at least is demanded.
    assert!(out.contains("\tif (argc-optind < 1) {\n"));
    // The usage line shows the ellipsis, un-bracketed.
    assert!(out.contains("usage: %s [options] files...\\n%s"));
    // The entry point declares both storage locations.
    assert!(out.contains("\tchar* *files;\n\tsize_t files__size;\n"));
    assert!(out.contains("parse_args(argc, argv, &files, &files__size);\n"));
}

#[test]
fn emission_is_idempotent() {
    let s = scenario_a();
    let first = s.gen();
    let second = s.gen();
    assert_eq!(first, second);
}

#[test]
fn emission_has_one_routine_and_one_entry_point() {
    let s = scenario_a();
    let out = s.gen();
    assert!(!out.is_empty());
    assert_eq!(out.matches("void parse_args(").count(), 1);
    assert_eq!(out.matches("int main(").count(), 1);
}

#[test]
fn selectors_honor_shorts_and_fill_from_low_end() {
    let mut a = opt("alpha", CType::Chars, "alpha");
    a.short = Some("x".to_string());
    let b = opt("beta", CType::Chars, "beta");
    let mut c = opt("gamma", CType::Chars, "gamma");
    c.short = Some("a".to_string());
    let d = opt("delta", CType::Chars, "delta");
    let v = vec![a, b, c, d];
    let sel = alloc_selectors(&v);
    assert_eq!(sel, vec![b'x', 2, b'a', 3]);
    // Injective, and never the help byte.
    for i in 0..sel.len() {
        assert_ne!(sel[i], b'h');
        for j in 0..i {
            assert_ne!(sel[i], sel[j]);
        }
    }
}

#[test]
fn selector_pool_skips_help_and_short_bytes() {
    // Shorts claim bytes 2 and 3; automatic allocation continues at 4.
    let mut a = opt("alpha", CType::Chars, "alpha");
    a.short = Some("\u{2}".to_string());
    let mut b = opt("beta", CType::Chars, "beta");
    b.short = Some("\u{3}".to_string());
    let c = opt("gamma", CType::Chars, "gamma");
    let v = vec![a, b, c];
    let sel = alloc_selectors(&v);
    assert_eq!(sel, vec![2, 3, 4]);
}

#[test]
fn optstring_marks_value_taking_shorts() {
    let mut a = opt("alpha", CType::Chars, "alpha");
    a.short = Some("x".to_string());
    let mut b = opt("quiet", CType::Int, "quiet");
    b.short = Some("q".to_string());
    b.flag = Some(true);
    let s = Spec { positional: vec![], non_positional: vec![a, b] };
    assert!(s.validate().is_ok());
    let out = s.gen();
    // `x` takes a value, `q` does not; help is appended last.
    assert!(out.contains("getopt_long(argc, argv, \"x:qh\", longopts, NULL)"));
    // Explicit shorts are honored verbatim in the dispatch table.
    assert!(out.contains(&format!("{{\"alpha\", required_argument, 0, {}}},\n", b'x')));
    assert!(out.contains(&format!("{{\"quiet\", no_argument, 0, {}}},\n", b'q')));
}

#[test]
fn aliases_and_descriptions_in_help() {
    let mut o = opt("out", CType::Chars, "out");
    o.aliases = Some(vec!["alpha".to_string(), "beta".to_string()]);
    o.help_name = Some("FILE".to_string());
    o.help_descr = Some("where to write".to_string());
    let s = Spec { positional: vec![], non_positional: vec![o] };
    assert!(s.validate().is_ok());
    let out = s.gen();
    assert!(out.contains("  --out <FILE>  (aliased: --alpha --beta)"));
    assert!(out.contains("where to write"));
}

#[test]
fn default_values_are_c_quoted() {
    let mut p = pos("msg", CType::Chars, "msg");
    p.default = Some("say \"hi\"\n".to_string());
    let s = Spec { positional: vec![p], non_positional: vec![] };
    assert!(s.validate().is_ok());
    let out = s.gen();
    assert!(out.contains("\tstatic char* msg__default = \"say \\\"hi\\\"\\n\";\n"));
}

#[test]
fn int_defaults_stand_bare() {
    let mut p = pos("count", CType::Int, "count");
    p.default = Some("42".to_string());
    let s = Spec { positional: vec![p], non_positional: vec![] };
    assert!(s.validate().is_ok());
    let out = s.gen();
    assert!(out.contains("\tstatic int count__default = 42;\n"));
    assert!(out.contains("\t\t*count = atoi(argv[0]);\n"));
}

#[test]
fn two_required_positionals_adjust_argc_by_count() {
    let mut a = pos("first", CType::Chars, "first");
    a.required = Some(true);
    let mut b = pos("second", CType::Int, "second");
    b.required = Some(true);
    let s = Spec { positional: vec![a, b], non_positional: vec![] };
    assert!(s.validate().is_ok());
    let out = s.gen();
    assert!(out.contains("\tif (argc-optind < 2) {\n"));
    assert!(out.contains("\targc -= 2;\n\n"));
    assert!(out.contains("\t*first = argv[0];\n\targv++;\n"));
    assert!(out.contains("\t*second = atoi(argv[0]);\n\targv++;\n"));
}

#[test]
fn optional_multi_consumes_only_when_tokens_remain() {
    let mut p = pos("files", CType::Chars, "files");
    p.multi = Some(true);
    p.default = Some("-".to_string());
    let s = Spec { positional: vec![p], non_positional: vec![] };
    assert!(s.validate().is_ok());
    let out = s.gen();
    assert!(out.contains("\tif (argc > 0) {\n\t\t*files = argv;\n\t\t*files__size = argc;\n\t\tfiles__isset = 1;\n\t}\n"));
    assert!(out.contains(
        "\tif (!files__isset) {\n\t\t*files = &files__default;\n\t\t*files__size = 1;\n\t}\n"
    ));
}

#[test]
fn nested_optionals_bracket_in_order() {
    let a = pos("one", CType::Chars, "one");
    let b = pos("two", CType::Chars, "two");
    let s = Spec { positional: vec![a, b], non_positional: vec![] };
    assert!(s.validate().is_ok());
    let out = s.gen();
    assert!(out.contains("usage: %s [options] [one [two]]\\n%s"));
}

#[test]
fn decimal_rendering() {
    assert_eq!(dec_string(0), "0");
    assert_eq!(dec_string(7), "7");
    assert_eq!(dec_string(10), "10");
    assert_eq!(dec_string(104), "104");
    assert_eq!(dec_string(254), "254");
}

#[test]
fn c_quote_escapes_quotes_and_newlines() {
    assert_eq!(c_quote("plain"), "plain");
    assert_eq!(c_quote("a\"b"), "a\\\"b");
    assert_eq!(c_quote("a\nb"), "a\\nb");
    assert_eq!(c_quote(""), "");
}
