//! The two item kinds of an argument specification: positional parameters and
//! named (non-positional) options, with their abstract views and the C text
//! fragments each one contributes to the generated parser.
use crate::text::{
    c_quote, concat_map, dec_string, spec_c_quote, spec_dec_digits, lemma_concat_map_take_all,
    lemma_concat_map_take_step,
};
use vstd::prelude::*;
use vstd::string::StringExecFns;

verus! {

/// The two value types the generated C code can hold.
#[derive(Clone, Copy, Debug)]
pub enum CType {
    Chars,
    Int,
}

/// The C spelling of a value type.
pub open spec fn spec_ctype_text(t: CType) -> Seq<char> {
    match t {
        CType::Chars => "char*"@,
        CType::Int => "int"@,
    }
}

impl CType {
    /// The C spelling of this value type: `char*` or `int`.
    pub fn text(&self) -> (r: String)
        ensures
            r@ == spec_ctype_text(*self),
    {
        match self {
            CType::Chars => String::from_str("char*"),
            CType::Int => String::from_str("int"),
        }
    }
}

/// An argument identified by its position on the command line.
#[derive(Clone, Debug)]
pub struct PositionalItem {
    pub c_var: String,
    pub c_type: CType,
    pub help_name: String,
    pub help_descr: Option<String>,
    pub required: Option<bool>,
    pub default: Option<String>,
    pub multi: Option<bool>,
}

/// The abstract value of a positional parameter: names as character
/// sequences, the `required` and `multi` flags collapsed to their defaults.
pub struct PItemView {
    pub c_var: Seq<char>,
    pub c_type: CType,
    pub help_name: Seq<char>,
    pub help_descr: Option<Seq<char>>,
    pub required: bool,
    pub default: Option<Seq<char>>,
    pub multi: bool,
}

impl View for PositionalItem {
    type V = PItemView;

    open spec fn view(&self) -> PItemView {
        PItemView {
            c_var: self.c_var@,
            c_type: self.c_type,
            help_name: self.help_name@,
            help_descr: match self.help_descr {
                Option::Some(s) => Option::Some(s@),
                Option::None => Option::None,
            },
            required: self.required == Option::Some(true),
            default: match self.default {
                Option::Some(s) => Option::Some(s@),
                Option::None => Option::None,
            },
            multi: self.multi == Option::Some(true),
        }
    }
}

/// An argument identified by a long name, and optionally a one-character
/// short name.
#[derive(Clone, Debug)]
pub struct NonPositionalItem {
    pub c_var: String,
    pub c_type: CType,
    pub long: String,
    pub help_name: Option<String>,
    pub help_descr: Option<String>,
    pub aliases: Option<Vec<String>>,
    pub short: Option<String>,
    pub required: Option<bool>,
    pub default: Option<String>,
    pub flag: Option<bool>,
}

/// The abstract value of a named option.
pub struct NPItemView {
    pub c_var: Seq<char>,
    pub c_type: CType,
    pub long: Seq<char>,
    pub help_name: Option<Seq<char>>,
    pub help_descr: Option<Seq<char>>,
    pub aliases: Option<Seq<Seq<char>>>,
    pub short: Option<Seq<char>>,
    pub required: bool,
    pub default: Option<Seq<char>>,
    pub flag: bool,
}

impl View for NonPositionalItem {
    type V = NPItemView;

    open spec fn view(&self) -> NPItemView {
        NPItemView {
            c_var: self.c_var@,
            c_type: self.c_type,
            long: self.long@,
            help_name: match self.help_name {
                Option::Some(s) => Option::Some(s@),
                Option::None => Option::None,
            },
            help_descr: match self.help_descr {
                Option::Some(s) => Option::Some(s@),
                Option::None => Option::None,
            },
            aliases: match self.aliases {
                Option::Some(v) => Option::Some(v@.map_values(|a: String| a@)),
                Option::None => Option::None,
            },
            short: match self.short {
                Option::Some(s) => Option::Some(s@),
                Option::None => Option::None,
            },
            required: self.required == Option::Some(true),
            default: match self.default {
                Option::Some(s) => Option::Some(s@),
                Option::None => Option::None,
            },
            flag: self.flag == Option::Some(true),
        }
    }
}

// ---------------------------------------------------------------------------
// Fragments of a positional parameter
// ---------------------------------------------------------------------------
pub open spec fn spec_p_decl_arg(p: PItemView) -> Seq<char> {
    if p.multi {
        ", "@ + spec_ctype_text(p.c_type) + " **"@ + p.c_var + ", size_t *"@ + p.c_var + "__size"@
    } else {
        ", "@ + spec_ctype_text(p.c_type) + " *"@ + p.c_var
    }
}

pub open spec fn spec_p_call_arg(p: PItemView) -> Seq<char> {
    if p.multi {
        ", &"@ + p.c_var + ", &"@ + p.c_var + "__size"@
    } else {
        ", &"@ + p.c_var
    }
}

pub open spec fn spec_p_main_decls(p: PItemView) -> Seq<char> {
    if p.multi {
        "\t"@ + spec_ctype_text(p.c_type) + " *"@ + p.c_var + ";\n\tsize_t "@ + p.c_var
            + "__size;\n"@
    } else {
        "\t"@ + spec_ctype_text(p.c_type) + " "@ + p.c_var + ";\n"@
    }
}

pub open spec fn spec_p_isset_decl(p: PItemView) -> Seq<char> {
    if p.default is Some {
        "\tint "@ + p.c_var + "__isset = 0;\n"@
    } else {
        Seq::empty()
    }
}

/// The right-hand side of a `__default` definition: a quoted C string
/// literal for `char*`, the value itself for `int`.
pub open spec fn spec_default_payload(t: CType, d: Seq<char>) -> Seq<char> {
    match t {
        CType::Chars => "\""@ + spec_c_quote(d) + "\""@,
        CType::Int => d,
    }
}

pub open spec fn spec_p_default_decl(p: PItemView) -> Seq<char> {
    match p.default {
        Option::Some(d) => "\tstatic "@ + spec_ctype_text(p.c_type) + " "@ + p.c_var
            + "__default = "@ + spec_default_payload(p.c_type, d) + ";\n"@,
        Option::None => Seq::empty(),
    }
}

pub open spec fn spec_p_indent(p: PItemView) -> Seq<char> {
    if p.required {
        "\t"@
    } else {
        "\t\t"@
    }
}

pub open spec fn spec_p_set_isset(p: PItemView) -> Seq<char> {
    if p.default is Some {
        spec_p_indent(p) + p.c_var + "__isset = 1;\n"@
    } else {
        Seq::empty()
    }
}

pub open spec fn spec_p_assign_argv0(p: PItemView) -> Seq<char> {
    if p.multi {
        spec_p_indent(p) + "*"@ + p.c_var + " = argv;\n"@ + spec_p_indent(p) + "*"@ + p.c_var
            + "__size = argc;\n"@ + spec_p_set_isset(p)
    } else {
        match p.c_type {
            CType::Chars => spec_p_indent(p) + "*"@ + p.c_var + " = argv[0];\n"@ + spec_p_set_isset(
                p,
            ),
            CType::Int => spec_p_indent(p) + "*"@ + p.c_var + " = atoi(argv[0]);\n"@
                + spec_p_set_isset(p),
        }
    }
}

pub open spec fn spec_p_post_loop(p: PItemView) -> Seq<char> {
    if p.default is Some {
        "\tif (!"@ + p.c_var + "__isset) {\n"@ + (if p.multi {
            "\t\t*"@ + p.c_var + " = &"@ + p.c_var + "__default;\n\t\t*"@ + p.c_var
                + "__size = 1;\n\t}\n"@
        } else {
            "\t\t*"@ + p.c_var + " = "@ + p.c_var + "__default;\n\t}\n"@
        })
    } else {
        Seq::empty()
    }
}

pub open spec fn spec_p_help(p: PItemView) -> Seq<char> {
    match p.help_descr {
        Option::Some(d) => "\t       \"  "@ + p.help_name + "\\n\"\n"@ + "\t       \"  "@
            + "      "@ + spec_c_quote(d) + "\\n\"\n"@,
        Option::None => "\t       \"  "@ + p.help_name + "\\n\"\n"@,
    }
}

impl PositionalItem {
    pub fn is_required(&self) -> (r: bool)
        ensures
            r == self@.required,
    {
        match self.required {
            Option::Some(b) => b,
            Option::None => false,
        }
    }

    pub fn is_multi(&self) -> (r: bool)
        ensures
            r == self@.multi,
    {
        match self.multi {
            Option::Some(b) => b,
            Option::None => false,
        }
    }

    pub fn has_default(&self) -> (r: bool)
        ensures
            r == (self@.default is Some),
    {
        self.default.is_some()
    }

    /// A suitable string to go into the parse_args declaration. Starts with ',' if anything.
    pub fn cgen_decl_arg(&self) -> (r: String)
        ensures
            r@ == spec_p_decl_arg(self@),
    {
        let mut r = String::new();
        let t = self.c_type.text();
        if self.is_multi() {
            r.append(", ");
            r.append(t.as_str());
            r.append(" **");
            r.append(self.c_var.as_str());
            r.append(", size_t *");
            r.append(self.c_var.as_str());
            r.append("__size");
        } else {
            r.append(", ");
            r.append(t.as_str());
            r.append(" *");
            r.append(self.c_var.as_str());
        }
        proof {
            assert(r@ =~= spec_p_decl_arg(self@));
        }
        r
    }

    /// A suitable string to go into the parse_args function call. Starts with ',' if anything.
    pub fn cgen_call_arg(&self) -> (r: String)
        ensures
            r@ == spec_p_call_arg(self@),
    {
        let mut r = String::new();
        if self.is_multi() {
            r.append(", &");
            r.append(self.c_var.as_str());
            r.append(", &");
            r.append(self.c_var.as_str());
            r.append("__size");
        } else {
            r.append(", &");
            r.append(self.c_var.as_str());
        }
        proof {
            assert(r@ =~= spec_p_call_arg(self@));
        }
        r
    }

    /// Declarations for the main function.
    pub fn cgen_main_decls(&self) -> (r: String)
        ensures
            r@ == spec_p_main_decls(self@),
    {
        let mut r = String::new();
        let t = self.c_type.text();
        if self.is_multi() {
            r.append("\t");
            r.append(t.as_str());
            r.append(" *");
            r.append(self.c_var.as_str());
            r.append(";\n\tsize_t ");
            r.append(self.c_var.as_str());
            r.append("__size;\n");
        } else {
            r.append("\t");
            r.append(t.as_str());
            r.append(" ");
            r.append(self.c_var.as_str());
            r.append(";\n");
        }
        proof {
            assert(r@ =~= spec_p_main_decls(self@));
        }
        r
    }

    /// Declaration of __isset variables for the parse_args (not main) function.
    pub fn cgen_isset_decl(&self) -> (r: String)
        ensures
            r@ == spec_p_isset_decl(self@),
    {
        let mut r = String::new();
        if self.has_default() {
            r.append("\tint ");
            r.append(self.c_var.as_str());
            r.append("__isset = 0;\n");
        }
        proof {
            assert(r@ =~= spec_p_isset_decl(self@));
        }
        r
    }

    /// Definition of __default variables for the parse_args (not main) function.
    pub fn cgen_default_decl(&self) -> (r: String)
        ensures
            r@ == spec_p_default_decl(self@),
    {
        let mut r = String::new();
        if let Option::Some(d) = &self.default {
            let t = self.c_type.text();
            r.append("\tstatic ");
            r.append(t.as_str());
            r.append(" ");
            r.append(self.c_var.as_str());
            r.append("__default = ");
            match self.c_type {
                CType::Chars => {
                    let q = c_quote(d.as_str());
                    r.append("\"");
                    r.append(q.as_str());
                    r.append("\"");
                },
                CType::Int => {
                    r.append(d.as_str());
                },
            }
            r.append(";\n");
        }
        proof {
            assert(r@ =~= spec_p_default_decl(self@));
        }
        r
    }

    /// Assigns value to c_var using argv[0].
    pub fn cgen_assign_argv0(&self) -> (r: String)
        ensures
            r@ == spec_p_assign_argv0(self@),
    {
        let indent: &str = if self.is_required() {
            "\t"
        } else {
            "\t\t"
        };
        let mut r = String::new();
        if self.is_multi() {
            r.append(indent);
            r.append("*");
            r.append(self.c_var.as_str());
            r.append(" = argv;\n");
            r.append(indent);
            r.append("*");
            r.append(self.c_var.as_str());
            r.append("__size = argc;\n");
        } else {
            match self.c_type {
                CType::Chars => {
                    r.append(indent);
                    r.append("*");
                    r.append(self.c_var.as_str());
                    r.append(" = argv[0];\n");
                },
                CType::Int => {
                    r.append(indent);
                    r.append("*");
                    r.append(self.c_var.as_str());
                    r.append(" = atoi(argv[0]);\n");
                },
            }
        }
        if self.has_default() {
            r.append(indent);
            r.append(self.c_var.as_str());
            r.append("__isset = 1;\n");
        }
        proof {
            assert(r@ =~= spec_p_assign_argv0(self@));
        }
        r
    }

    /// Performs checks and conditional assignments after the parse loop.
    pub fn cgen_post_loop(&self) -> (r: String)
        ensures
            r@ == spec_p_post_loop(self@),
    {
        let mut r = String::new();
        if self.has_default() {
            r.append("\tif (!");
            r.append(self.c_var.as_str());
            r.append("__isset) {\n");
            if self.is_multi() {
                r.append("\t\t*");
                r.append(self.c_var.as_str());
                r.append(" = &");
                r.append(self.c_var.as_str());
                r.append("__default;\n\t\t*");
                r.append(self.c_var.as_str());
                r.append("__size = 1;\n\t}\n");
            } else {
                r.append("\t\t*");
                r.append(self.c_var.as_str());
                r.append(" = ");
                r.append(self.c_var.as_str());
                r.append("__default;\n\t}\n");
            }
        }
        proof {
            assert(r@ =~= spec_p_post_loop(self@));
        }
        r
    }

    /// One usage-block entry for this parameter.
    pub fn help(&self) -> (r: String)
        ensures
            r@ == spec_p_help(self@),
    {
        let mut r = String::new();
        r.append("\t       \"  ");
        r.append(self.help_name.as_str());
        r.append("\\n\"\n");
        if let Option::Some(d) = &self.help_descr {
            let q = c_quote(d.as_str());
            r.append("\t       \"  ");
            r.append("      ");
            r.append(q.as_str());
            r.append("\\n\"\n");
        }
        proof {
            assert(r@ =~= spec_p_help(self@));
        }
        r
    }
}

// ---------------------------------------------------------------------------
// Fragments of a named option
// ---------------------------------------------------------------------------
pub open spec fn spec_np_decl_arg(np: NPItemView) -> Seq<char> {
    ", "@ + spec_ctype_text(np.c_type) + " *"@ + np.c_var
}

pub open spec fn spec_np_call_arg(np: NPItemView) -> Seq<char> {
    ", &"@ + np.c_var
}

pub open spec fn spec_np_main_decl(np: NPItemView) -> Seq<char> {
    "\t"@ + spec_ctype_text(np.c_type) + " "@ + np.c_var + ";\n"@
}

pub open spec fn spec_np_isset_decl(np: NPItemView) -> Seq<char> {
    if !np.flag {
        "\tint "@ + np.c_var + "__isset = 0;\n"@
    } else {
        Seq::empty()
    }
}

pub open spec fn spec_np_default_decl(np: NPItemView) -> Seq<char> {
    match np.default {
        Option::Some(d) => "\tstatic "@ + spec_ctype_text(np.c_type) + " "@ + np.c_var
            + "__default = "@ + spec_default_payload(np.c_type, d) + ";\n"@,
        Option::None => Seq::empty(),
    }
}

pub open spec fn spec_np_assign_optarg(np: NPItemView) -> Seq<char> {
    if np.flag {
        "\t\t\t*"@ + np.c_var + " = 1;\n"@
    } else {
        match np.c_type {
            CType::Chars => "\t\t\t*"@ + np.c_var + " = optarg;\n"@ + "\t\t\t"@ + np.c_var
                + "__isset = 1;\n"@,
            CType::Int => "\t\t\t*"@ + np.c_var + " = atoi(optarg);\n"@ + "\t\t\t"@ + np.c_var
                + "__isset = 1;\n"@,
        }
    }
}

/// One entry of the long-option dispatch table, with the selector byte
/// rendered in decimal.
pub open spec fn spec_np_getopt(np: NPItemView, uniq: u8) -> Seq<char> {
    "\t\t{\""@ + np.long + "\", "@ + (if np.flag {
        "no_argument"@
    } else {
        "required_argument"@
    }) + ", 0, "@ + spec_dec_digits(uniq as int) + "},\n"@
}

pub open spec fn spec_np_post_loop(np: NPItemView) -> Seq<char> {
    if np.required {
        "\tif (!"@ + np.c_var + "__isset) {\n\t\tusage(argv[0]);\n\t\texit(1);\n\t}\n"@
    } else if np.default is None {
        Seq::empty()
    } else {
        "\tif (!"@ + np.c_var + "__isset) {\n\t\t*"@ + np.c_var + " = "@ + np.c_var
            + "__default;\n\t}\n"@
    }
}

pub open spec fn spec_np_long_part(np: NPItemView) -> Seq<char> {
    "  --"@ + np.long + (if !np.flag {
        " <"@ + (match np.help_name {
            Option::Some(h) => h,
            Option::None => "arg"@,
        }) + ">"@
    } else {
        Seq::empty()
    }) + (match np.aliases {
        Option::Some(al) => "  (aliased:"@ + concat_map(al, |a: Seq<char>| " --"@ + a) + ")"@,
        Option::None => Seq::empty(),
    })
}

pub open spec fn spec_np_descr_part(np: NPItemView) -> Seq<char> {
    match np.help_descr {
        Option::Some(h) => "\\n\"\n\t       \"        "@ + spec_c_quote(h),
        Option::None => Seq::empty(),
    }
}

pub open spec fn spec_np_help(np: NPItemView) -> Seq<char> {
    match np.short {
        Option::Some(s) => "\t       \"  "@ + "-"@ + s + spec_np_long_part(np)
            + spec_np_descr_part(np) + "\\n\"\n"@,
        Option::None => "\t       \"  "@ + "  "@ + spec_np_long_part(np) + spec_np_descr_part(np)
            + "\\n\"\n"@,
    }
}

impl NonPositionalItem {
    pub fn is_flag(&self) -> (r: bool)
        ensures
            r == self@.flag,
    {
        match self.flag {
            Option::Some(b) => b,
            Option::None => false,
        }
    }

    pub fn is_required(&self) -> (r: bool)
        ensures
            r == self@.required,
    {
        match self.required {
            Option::Some(b) => b,
            Option::None => false,
        }
    }

    pub fn has_default(&self) -> (r: bool)
        ensures
            r == (self@.default is Some),
    {
        self.default.is_some()
    }

    /// A suitable string to go into the parse_args declaration. Starts with ',' if anything.
    pub fn cgen_decl_arg(&self) -> (r: String)
        ensures
            r@ == spec_np_decl_arg(self@),
    {
        let mut r = String::new();
        let t = self.c_type.text();
        r.append(", ");
        r.append(t.as_str());
        r.append(" *");
        r.append(self.c_var.as_str());
        proof {
            assert(r@ =~= spec_np_decl_arg(self@));
        }
        r
    }

    /// A suitable string to go into the parse_args function call. Starts with ',' if anything.
    pub fn cgen_call_arg(&self) -> (r: String)
        ensures
            r@ == spec_np_call_arg(self@),
    {
        let mut r = String::new();
        r.append(", &");
        r.append(self.c_var.as_str());
        proof {
            assert(r@ =~= spec_np_call_arg(self@));
        }
        r
    }

    /// Declarations for the main function.
    pub fn cgen_main_decl(&self) -> (r: String)
        ensures
            r@ == spec_np_main_decl(self@),
    {
        let mut r = String::new();
        let t = self.c_type.text();
        r.append("\t");
        r.append(t.as_str());
        r.append(" ");
        r.append(self.c_var.as_str());
        r.append(";\n");
        proof {
            assert(r@ =~= spec_np_main_decl(self@));
        }
        r
    }

    /// Declaration of __isset variables for the parse_args (not main) function.
    pub fn cgen_isset_decl(&self) -> (r: String)
        ensures
            r@ == spec_np_isset_decl(self@),
    {
        let mut r = String::new();
        if !self.is_flag() {
            r.append("\tint ");
            r.append(self.c_var.as_str());
            r.append("__isset = 0;\n");
        }
        proof {
            assert(r@ =~= spec_np_isset_decl(self@));
        }
        r
    }

    /// Definition of __default variables for the parse_args (not main) function.
    pub fn cgen_default_decl(&self) -> (r: String)
        ensures
            r@ == spec_np_default_decl(self@),
    {
        let mut r = String::new();
        if let Option::Some(d) = &self.default {
            let t = self.c_type.text();
            r.append("\tstatic ");
            r.append(t.as_str());
            r.append(" ");
            r.append(self.c_var.as_str());
            r.append("__default = ");
            match self.c_type {
                CType::Chars => {
                    let q = c_quote(d.as_str());
                    r.append("\"");
                    r.append(q.as_str());
                    r.append("\"");
                },
                CType::Int => {
                    r.append(d.as_str());
                },
            }
            r.append(";\n");
        }
        proof {
            assert(r@ =~= spec_np_default_decl(self@));
        }
        r
    }

    /// Assigns value to the c_var in parse loop.
    pub fn cgen_assign_optarg(&self) -> (r: String)
        ensures
            r@ == spec_np_assign_optarg(self@),
    {
        let mut r = String::new();
        if self.is_flag() {
            r.append("\t\t\t*");
            r.append(self.c_var.as_str());
            r.append(" = 1;\n");
        } else {
            match self.c_type {
                CType::Chars => {
                    r.append("\t\t\t*");
                    r.append(self.c_var.as_str());
                    r.append(" = optarg;\n");
                },
                CType::Int => {
                    r.append("\t\t\t*");
                    r.append(self.c_var.as_str());
                    r.append(" = atoi(optarg);\n");
                },
            }
            r.append("\t\t\t");
            r.append(self.c_var.as_str());
            r.append("__isset = 1;\n");
        }
        proof {
            assert(r@ =~= spec_np_assign_optarg(self@));
        }
        r
    }

    /// Long option as per getopt_long(3).
    pub fn cgen_getopt(&self, uniq: u8) -> (r: String)
        ensures
            r@ == spec_np_getopt(self@, uniq),
    {
        let mut r = String::new();
        r.append("\t\t{\"");
        r.append(self.long.as_str());
        r.append("\", ");
        if self.is_flag() {
            r.append("no_argument");
        } else {
            r.append("required_argument");
        }
        r.append(", 0, ");
        let d = dec_string(uniq as u64);
        r.append(d.as_str());
        r.append("},\n");
        proof {
            assert(r@ =~= spec_np_getopt(self@, uniq));
        }
        r
    }

    /// Performs checks and conditional assignments after the parse loop.
    pub fn cgen_post_loop(&self) -> (r: String)
        ensures
            r@ == spec_np_post_loop(self@),
    {
        let mut r = String::new();
        if self.is_required() {
            r.append("\tif (!");
            r.append(self.c_var.as_str());
            r.append("__isset) {\n\t\tusage(argv[0]);\n\t\texit(1);\n\t}\n");
        } else if self.has_default() {
            r.append("\tif (!");
            r.append(self.c_var.as_str());
            r.append("__isset) {\n\t\t*");
            r.append(self.c_var.as_str());
            r.append(" = ");
            r.append(self.c_var.as_str());
            r.append("__default;\n\t}\n");
        }
        proof {
            assert(r@ =~= spec_np_post_loop(self@));
        }
        r
    }

    /// One usage-block entry for this option.
    pub fn help(&self) -> (r: String)
        ensures
            r@ == spec_np_help(self@),
    {
        let mut long_part = String::new();
        long_part.append("  --");
        long_part.append(self.long.as_str());
        if !self.is_flag() {
            long_part.append(" <");
            if let Option::Some(h) = &self.help_name {
                long_part.append(h.as_str());
            } else {
                long_part.append("arg");
            }
            long_part.append(">");
        }
        if let Option::Some(aliases) = &self.aliases {
            let ghost af = |a: Seq<char>| " --"@ + a;
            let ghost av = aliases@.map_values(|a: String| a@);
            long_part.append("  (aliased:");
            let ghost base = long_part@;
            let mut i: usize = 0;
            while i < aliases.len()
                invariant
                    0 <= i <= aliases.len(),
                    av == aliases@.map_values(|a: String| a@),
                    av.len() == aliases.len(),
                    long_part@ =~= base + concat_map(av.take(i as int), af),
                decreases aliases.len() - i,
            {
                long_part.append(" --");
                long_part.append(aliases[i].as_str());
                proof {
                    lemma_concat_map_take_step(av, af, i as int);
                    assert(av[i as int] == aliases@[i as int]@);
                    assert(long_part@ =~= base + concat_map(av.take(i as int + 1), af));
                }
                i = i + 1;
            }
            proof {
                lemma_concat_map_take_all(av, af);
            }
            long_part.append(")");
        }
        proof {
            assert(long_part@ =~= spec_np_long_part(self@));
        }
        let mut r = String::new();
        r.append("\t       \"  ");
        if let Option::Some(s) = &self.short {
            r.append("-");
            r.append(s.as_str());
        } else {
            r.append("  ");
        }
        r.append(long_part.as_str());
        if let Option::Some(h) = &self.help_descr {
            let q = c_quote(h.as_str());
            r.append("\\n\"\n\t       \"        ");
            r.append(q.as_str());
        }
        r.append("\\n\"\n");
        proof {
            assert(r@ =~= spec_np_help(self@));
        }
        r
    }
}

} // verus!
