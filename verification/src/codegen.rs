//! The specification model: validation of positional parameters and named
//! options, and emission of the generated C text (usage block, parsing
//! routine and entry-point skeleton).
use crate::ident::{has_space, is_ident, spec_has_space, spec_is_ident};
use crate::item::{
    CType, NPItemView, NonPositionalItem, PItemView, PositionalItem, spec_np_assign_optarg,
    spec_np_call_arg, spec_np_decl_arg, spec_np_default_decl, spec_np_getopt, spec_np_help,
    spec_np_isset_decl, spec_np_main_decl, spec_np_post_loop, spec_p_assign_argv0, spec_p_call_arg,
    spec_p_decl_arg, spec_p_default_decl, spec_p_help, spec_p_isset_decl, spec_p_main_decls,
    spec_p_post_loop,
};
use crate::selector::{
    alloc_selectors, np_views, spec_can_alloc, spec_selector_at, spec_selectors, spec_shorts_wf,
};
use crate::text::{
    concat_map, dec_string, lemma_concat_map_take_all, lemma_concat_map_take_step, push_char,
    repeat_char, spec_dec_digits, spec_repeat_char,
};
use vstd::prelude::*;
use vstd::string::{StrSliceExecFns, StringExecFns};

verus! {

/// Error type for sanity checks.
#[derive(Debug)]
pub enum ValidationError {
    /// The structured-data decoder rejected the input; holds its message.
    TomlError(String),
    BadIdent(String, String),
    RequiredHasDefault(String),
    MultiNotChars(String),
    InvalidLong(String),
    InvalidShort(String, String),
    InvalidAlias(String, String),
    FlagMustBeInt(String),
    FlagHasDefault(String),
    FlagCannotBeRequired(String),
    RequiredPositionalGoesBeforeOptionPositional(String),
    MultiMustBeLast(String),
}

/// The abstract value of a validation error.
pub enum ValidationErrorView {
    TomlError(Seq<char>),
    BadIdent(Seq<char>, Seq<char>),
    RequiredHasDefault(Seq<char>),
    MultiNotChars(Seq<char>),
    InvalidLong(Seq<char>),
    InvalidShort(Seq<char>, Seq<char>),
    InvalidAlias(Seq<char>, Seq<char>),
    FlagMustBeInt(Seq<char>),
    FlagHasDefault(Seq<char>),
    FlagCannotBeRequired(Seq<char>),
    RequiredPositionalGoesBeforeOptionPositional(Seq<char>),
    MultiMustBeLast(Seq<char>),
}

impl View for ValidationError {
    type V = ValidationErrorView;

    open spec fn view(&self) -> ValidationErrorView {
        match self {
            ValidationError::TomlError(m) => ValidationErrorView::TomlError(m@),
            ValidationError::BadIdent(p, v) => ValidationErrorView::BadIdent(p@, v@),
            ValidationError::RequiredHasDefault(p) => ValidationErrorView::RequiredHasDefault(p@),
            ValidationError::MultiNotChars(p) => ValidationErrorView::MultiNotChars(p@),
            ValidationError::InvalidLong(l) => ValidationErrorView::InvalidLong(l@),
            ValidationError::InvalidShort(p, s) => ValidationErrorView::InvalidShort(p@, s@),
            ValidationError::InvalidAlias(p, a) => ValidationErrorView::InvalidAlias(p@, a@),
            ValidationError::FlagMustBeInt(p) => ValidationErrorView::FlagMustBeInt(p@),
            ValidationError::FlagHasDefault(p) => ValidationErrorView::FlagHasDefault(p@),
            ValidationError::FlagCannotBeRequired(p) => ValidationErrorView::FlagCannotBeRequired(
                p@,
            ),
            ValidationError::RequiredPositionalGoesBeforeOptionPositional(
                p,
            ) => ValidationErrorView::RequiredPositionalGoesBeforeOptionPositional(p@),
            ValidationError::MultiMustBeLast(p) => ValidationErrorView::MultiMustBeLast(p@),
        }
    }
}

/// The human-readable diagnostic for a validation error.
pub open spec fn spec_error_message(e: ValidationErrorView) -> Seq<char> {
    match e {
        ValidationErrorView::TomlError(m) => m,
        ValidationErrorView::BadIdent(p, v) => "in param "@ + p + ": invalid c variable \""@ + v
            + "\""@,
        ValidationErrorView::RequiredHasDefault(p) => "in param "@ + p
            + ": cannot set default value for required argument"@,
        ValidationErrorView::MultiNotChars(p) => "in param "@ + p
            + ": multi-valued argument must be of type char* (though they will be stored in char**)"@,
        ValidationErrorView::InvalidLong(l) => "invalid argument long: \""@ + l + "\""@,
        ValidationErrorView::InvalidShort(p, s) => "in param "@ + p + ": invalid short name: \""@
            + s + "\""@,
        ValidationErrorView::InvalidAlias(p, a) => "in param "@ + p
            + ": invalid argument alias: \""@ + a + "\""@,
        ValidationErrorView::FlagMustBeInt(p) => "in param "@ + p
            + ": options that are flags must be of c_type int"@,
        ValidationErrorView::FlagHasDefault(p) => "in param "@ + p
            + ": options that are flags cannot have default"@,
        ValidationErrorView::FlagCannotBeRequired(p) => "in param "@ + p
            + ": options that are flags cannot also be required"@,
        ValidationErrorView::RequiredPositionalGoesBeforeOptionPositional(p) => "in param "@ + p
            + ": required positional argument cannot come after a non-required one"@,
        ValidationErrorView::MultiMustBeLast(p) => "in param "@ + p
            + ": only the last positional argument can take multiple values"@,
    }
}

impl ValidationError {
    /// The human-readable diagnostic, as the caller would print it.
    pub fn message(&self) -> (r: String)
        ensures
            r@ == spec_error_message(self@),
    {
        let mut r = String::new();
        match self {
            ValidationError::TomlError(m) => {
                r.append(m.as_str());
            },
            ValidationError::BadIdent(p, v) => {
                r.append("in param ");
                r.append(p.as_str());
                r.append(": invalid c variable \"");
                r.append(v.as_str());
                r.append("\"");
            },
            ValidationError::RequiredHasDefault(p) => {
                r.append("in param ");
                r.append(p.as_str());
                r.append(": cannot set default value for required argument");
            },
            ValidationError::MultiNotChars(p) => {
                r.append("in param ");
                r.append(p.as_str());
                r.append(
                    ": multi-valued argument must be of type char* (though they will be stored in char**)",
                );
            },
            ValidationError::InvalidLong(l) => {
                r.append("invalid argument long: \"");
                r.append(l.as_str());
                r.append("\"");
            },
            ValidationError::InvalidShort(p, s) => {
                r.append("in param ");
                r.append(p.as_str());
                r.append(": invalid short name: \"");
                r.append(s.as_str());
                r.append("\"");
            },
            ValidationError::InvalidAlias(p, a) => {
                r.append("in param ");
                r.append(p.as_str());
                r.append(": invalid argument alias: \"");
                r.append(a.as_str());
                r.append("\"");
            },
            ValidationError::FlagMustBeInt(p) => {
                r.append("in param ");
                r.append(p.as_str());
                r.append(": options that are flags must be of c_type int");
            },
            ValidationError::FlagHasDefault(p) => {
                r.append("in param ");
                r.append(p.as_str());
                r.append(": options that are flags cannot have default");
            },
            ValidationError::FlagCannotBeRequired(p) => {
                r.append("in param ");
                r.append(p.as_str());
                r.append(": options that are flags cannot also be required");
            },
            ValidationError::RequiredPositionalGoesBeforeOptionPositional(p) => {
                r.append("in param ");
                r.append(p.as_str());
                r.append(": required positional argument cannot come after a non-required one");
            },
            ValidationError::MultiMustBeLast(p) => {
                r.append("in param ");
                r.append(p.as_str());
                r.append(": only the last positional argument can take multiple values");
            },
        }
        proof {
            assert(r@ =~= spec_error_message(self@));
        }
        r
    }
}

// ---------------------------------------------------------------------------
// Per-item validation
// ---------------------------------------------------------------------------
/// The first failure of a positional parameter's own checks, if any.
pub open spec fn spec_p_validate(p: PItemView) -> Option<ValidationErrorView> {
    if !spec_is_ident(p.c_var) {
        Option::Some(ValidationErrorView::BadIdent(p.help_name, p.c_var))
    } else if p.required && p.default is Some {
        Option::Some(ValidationErrorView::RequiredHasDefault(p.help_name))
    } else if p.multi && p.c_type is Int {
        Option::Some(ValidationErrorView::MultiNotChars(p.help_name))
    } else {
        Option::None
    }
}

/// The first alias holding a space, if any.
pub open spec fn spec_first_bad_alias(al: Seq<Seq<char>>) -> Option<Seq<char>>
    decreases al.len(),
{
    if al.len() == 0 {
        Option::None
    } else if spec_has_space(al[0]) {
        Option::Some(al[0])
    } else {
        spec_first_bad_alias(al.drop_first())
    }
}

/// The first failure of a named option's own checks, if any.
pub open spec fn spec_np_validate(np: NPItemView) -> Option<ValidationErrorView> {
    if !spec_is_ident(np.c_var) {
        Option::Some(ValidationErrorView::BadIdent(np.long, np.c_var))
    } else if spec_has_space(np.long) {
        Option::Some(ValidationErrorView::InvalidLong(np.long))
    } else if np.flag && np.c_type is Chars {
        Option::Some(ValidationErrorView::FlagMustBeInt(np.long))
    } else if np.flag && np.default is Some {
        Option::Some(ValidationErrorView::FlagHasDefault(np.long))
    } else if np.flag && np.required {
        Option::Some(ValidationErrorView::FlagCannotBeRequired(np.long))
    } else if np.default is Some && np.required {
        Option::Some(ValidationErrorView::RequiredHasDefault(np.long))
    } else if np.short is Some && np.short->0.len() != 1 {
        Option::Some(ValidationErrorView::InvalidShort(np.long, np.short->0))
    } else if np.aliases is Some && spec_first_bad_alias(np.aliases->0) is Some {
        Option::Some(
            ValidationErrorView::InvalidAlias(np.long, spec_first_bad_alias(np.aliases->0)->0),
        )
    } else {
        Option::None
    }
}

impl PositionalItem {
    /// Error if self is invalid.
    pub fn validate(&self) -> (r: Result<(), ValidationError>)
        ensures
            match r {
                Result::Ok(_) => spec_p_validate(self@) is None,
                Result::Err(e) => spec_p_validate(self@) == Option::Some(e@),
            },
    {
        if !is_ident(self.c_var.as_str()) {
            return Result::Err(
                ValidationError::BadIdent(self.help_name.clone(), self.c_var.clone()),
            );
        }
        if self.is_required() && self.has_default() {
            return Result::Err(ValidationError::RequiredHasDefault(self.help_name.clone()));
        }
        if self.is_multi() {
            if let CType::Int = self.c_type {
                return Result::Err(ValidationError::MultiNotChars(self.help_name.clone()));
            }
        }
        Result::Ok(())
    }
}

impl NonPositionalItem {
    /// Error if self is invalid.
    pub fn validate(&self) -> (r: Result<(), ValidationError>)
        ensures
            match r {
                Result::Ok(_) => spec_np_validate(self@) is None,
                Result::Err(e) => spec_np_validate(self@) == Option::Some(e@),
            },
    {
        if !is_ident(self.c_var.as_str()) {
            return Result::Err(ValidationError::BadIdent(self.long.clone(), self.c_var.clone()));
        }
        if has_space(self.long.as_str()) {
            return Result::Err(ValidationError::InvalidLong(self.long.clone()));
        }
        if self.is_flag() {
            if let CType::Chars = self.c_type {
                return Result::Err(ValidationError::FlagMustBeInt(self.long.clone()));
            }
            if self.has_default() {
                return Result::Err(ValidationError::FlagHasDefault(self.long.clone()));
            }
            if self.is_required() {
                return Result::Err(ValidationError::FlagCannotBeRequired(self.long.clone()));
            }
        }
        if self.has_default() && self.is_required() {
            return Result::Err(ValidationError::RequiredHasDefault(self.long.clone()));
        }
        if let Option::Some(short_name) = &self.short {
            if short_name.as_str().unicode_len() != 1 {
                return Result::Err(
                    ValidationError::InvalidShort(self.long.clone(), short_name.clone()),
                );
            }
        }
        if let Option::Some(aliases) = &self.aliases {
            let ghost av = aliases@.map_values(|a: String| a@);
            proof {
                assert(av.skip(0) =~= av);
            }
            let mut i: usize = 0;
            while i < aliases.len()
                invariant
                    0 <= i <= aliases@.len(),
                    av == aliases@.map_values(|a: String| a@),
                    av.len() == aliases@.len(),
                    forall|j: int| 0 <= j < av.len() ==> #[trigger] av[j] == aliases@[j]@,
                    spec_first_bad_alias(av) == spec_first_bad_alias(av.skip(i as int)),
                decreases aliases@.len() - i,
            {
                proof {
                    assert(av.skip(i as int)[0] == av[i as int]);
                    assert(av.skip(i as int).drop_first() =~= av.skip(i as int + 1));
                }
                if has_space(aliases[i].as_str()) {
                    return Result::Err(
                        ValidationError::InvalidAlias(self.long.clone(), aliases[i].clone()),
                    );
                }
                i = i + 1;
            }
            proof {
                assert(av.skip(av.len() as int) =~= Seq::<Seq<char>>::empty());
            }
        }
        Result::Ok(())
    }
}

// ---------------------------------------------------------------------------
// The specification model
// ---------------------------------------------------------------------------
/// The abstract values of a sequence of positional parameters.
pub open spec fn p_views(s: Seq<PositionalItem>) -> Seq<PItemView> {
    s.map_values(|x: PositionalItem| x@)
}

/// An argument specification.
pub struct Spec {
    /// Positional must be ordered: required, then optional.
    /// Only the last PositionalItem can be multi.
    pub positional: Vec<PositionalItem>,
    /// Non-positional is unordered.
    pub non_positional: Vec<NonPositionalItem>,
}

/// The abstract value of a specification.
pub struct SpecView {
    pub positional: Seq<PItemView>,
    pub non_positional: Seq<NPItemView>,
}

impl View for Spec {
    type V = SpecView;

    open spec fn view(&self) -> SpecView {
        SpecView {
            positional: p_views(self.positional@),
            non_positional: np_views(self.non_positional@),
        }
    }
}

/// The first failure among the positional parameters from index `i` on,
/// walking in order; `saw_optional` records whether a non-required parameter
/// stood before `i`.
pub open spec fn spec_pos_err(ps: Seq<PItemView>, i: int, saw_optional: bool) -> Option<
    ValidationErrorView,
>
    decreases ps.len() - i,
{
    if i < 0 || i >= ps.len() {
        Option::None
    } else {
        let p = ps[i];
        if spec_p_validate(p) is Some {
            spec_p_validate(p)
        } else if p.required && saw_optional {
            Option::Some(
                ValidationErrorView::RequiredPositionalGoesBeforeOptionPositional(p.help_name),
            )
        } else if p.multi && i != ps.len() - 1 {
            Option::Some(ValidationErrorView::MultiMustBeLast(p.help_name))
        } else {
            spec_pos_err(ps, i + 1, saw_optional || !p.required)
        }
    }
}

/// The first failure among the named options from index `i` on.
pub open spec fn spec_np_err(nps: Seq<NPItemView>, i: int) -> Option<ValidationErrorView>
    decreases nps.len() - i,
{
    if i < 0 || i >= nps.len() {
        Option::None
    } else if spec_np_validate(nps[i]) is Some {
        spec_np_validate(nps[i])
    } else {
        spec_np_err(nps, i + 1)
    }
}

/// The first failure of the whole specification: positional parameters in
/// order, then named options in order (fail-fast, no accumulation).
pub open spec fn spec_validate(s: SpecView) -> Option<ValidationErrorView> {
    if spec_pos_err(s.positional, 0, false) is Some {
        spec_pos_err(s.positional, 0, false)
    } else {
        spec_np_err(s.non_positional, 0)
    }
}

/// A specification on which validation succeeds.
pub open spec fn spec_valid(s: SpecView) -> bool {
    spec_validate(s) is None
}

impl Spec {
    /// Check all items in the spec to make sure they are valid: returns `Ok`
    /// exactly on valid specifications, and otherwise the first failure in
    /// walking order.
    ///
    /// Deliberately permissive: variable names are not cross-checked for
    /// collisions between items; that discipline stays with the author of
    /// the specification.
    pub fn validate(&self) -> (r: Result<(), ValidationError>)
        ensures
            match r {
                Result::Ok(_) => spec_valid(self@),
                Result::Err(e) => spec_validate(self@) == Option::Some(e@),
            },
    {
        let ghost pv = p_views(self.positional@);
        let ghost nv = np_views(self.non_positional@);
        let n = self.positional.len();
        let mut saw_optional = false;
        let mut i: usize = 0;
        while i < n
            invariant
                0 <= i <= n,
                n == pv.len(),
                pv == p_views(self.positional@),
                forall|j: int| 0 <= j < pv.len() ==> #[trigger] pv[j] == self.positional@[j]@,
                spec_pos_err(pv, 0, false) == spec_pos_err(pv, i as int, saw_optional),
            decreases n - i,
        {
            let pi = &self.positional[i];
            if let Result::Err(e) = pi.validate() {
                return Result::Err(e);
            }
            if pi.is_required() && saw_optional {
                return Result::Err(
                    ValidationError::RequiredPositionalGoesBeforeOptionPositional(
                        pi.help_name.clone(),
                    ),
                );
            }
            if pi.is_multi() && i != n - 1 {
                return Result::Err(ValidationError::MultiMustBeLast(pi.help_name.clone()));
            }
            if !pi.is_required() {
                saw_optional = true;
            }
            i = i + 1;
        }
        let m = self.non_positional.len();
        let mut k: usize = 0;
        while k < m
            invariant
                0 <= k <= m,
                m == nv.len(),
                nv == np_views(self.non_positional@),
                forall|j: int| 0 <= j < nv.len() ==> #[trigger] nv[j] == self.non_positional@[j]@,
                spec_pos_err(pv, 0, false) is None,
                pv == p_views(self.positional@),
                spec_np_err(nv, 0) == spec_np_err(nv, k as int),
            decreases m - k,
        {
            if let Result::Err(e) = self.non_positional[k].validate() {
                return Result::Err(e);
            }
            k = k + 1;
        }
        Result::Ok(())
    }
}

// ---------------------------------------------------------------------------
// Emission: headers
// ---------------------------------------------------------------------------
/// The fixed header block the generated code depends on.
pub open spec fn spec_headers() -> Seq<char> {
    "#include<stdlib.h>\n#include<stdio.h>\n#include<string.h>\n#include<getopt.h>\n"@
}

// ---------------------------------------------------------------------------
// Emission: usage block
// ---------------------------------------------------------------------------
/// How many positional parameters are optional.
pub open spec fn spec_n_optional(ps: Seq<PItemView>) -> int
    decreases ps.len(),
{
    if ps.len() == 0 {
        0
    } else {
        spec_n_optional(ps.drop_last()) + (if !ps.last().required {
            1int
        } else {
            0int
        })
    }
}

/// One positional parameter on the usage line: its label, bracketed when
/// optional, with an ellipsis when multi-valued.
pub open spec fn spec_usage_pos_piece(p: PItemView) -> Seq<char> {
    seq![' '] + (if !p.required {
        seq!['[']
    } else {
        Seq::<char>::empty()
    }) + p.help_name + (if p.multi {
        "..."@
    } else {
        Seq::<char>::empty()
    })
}

/// The usage-line summary of the positional parameters, closing brackets
/// gathered at the end.
pub open spec fn spec_positional_usage(ps: Seq<PItemView>) -> Seq<char> {
    concat_map(ps, |p: PItemView| spec_usage_pos_piece(p)) + spec_repeat_char(
        ']',
        spec_n_optional(ps),
    )
}

/// The help block: one entry per positional parameter, the built-in help
/// entry, then one entry per named option.
pub open spec fn spec_help_block(s: SpecView) -> Seq<char> {
    concat_map(s.positional, |p: PItemView| spec_p_help(p)) + "\t       \"  "@ + "-h  --help\\n\"\n"@
        + "\t       \"  "@ + "      print this usage and exit\\n\"\n"@ + concat_map(
        s.non_positional,
        |np: NPItemView| spec_np_help(np),
    )
}

/// The whole generated `usage` function.
pub open spec fn spec_usage(s: SpecView) -> Seq<char> {
    "static void usage(const char *progname) {\n\tprintf(\"usage: %s [options]"@
        + spec_positional_usage(s.positional) + "\\n%s\", progname,\n"@ + spec_help_block(s)
        + "\t       );\n}\n"@
}

// ---------------------------------------------------------------------------
// Emission: parsing routine
// ---------------------------------------------------------------------------
/// The dispatch-table entries for the first `n` named options.
pub open spec fn spec_getopt_table_upto(nps: Seq<NPItemView>, n: int) -> Seq<char>
    decreases n,
{
    if n <= 0 {
        Seq::empty()
    } else {
        spec_getopt_table_upto(nps, n - 1) + spec_np_getopt(
            nps[n - 1],
            spec_selector_at(nps, n - 1),
        )
    }
}

/// The dispatch-table entries of all named options, in order, each with its
/// allocated selector.
pub open spec fn spec_getopt_table(nps: Seq<NPItemView>) -> Seq<char> {
    spec_getopt_table_upto(nps, nps.len() as int)
}

/// What one named option contributes to the short-option descriptor string.
pub open spec fn spec_optstring_piece(np: NPItemView) -> Seq<char> {
    match np.short {
        Option::Some(s) => s + (if !np.flag {
            seq![':']
        } else {
            Seq::<char>::empty()
        }),
        Option::None => Seq::empty(),
    }
}

/// The short-option descriptor string: every explicit short name with its
/// value marker, and the help short name at the end.
pub open spec fn spec_optstring(nps: Seq<NPItemView>) -> Seq<char> {
    concat_map(nps, |np: NPItemView| spec_optstring_piece(np)) + seq!['h']
}

/// The switch cases for the first `n` named options.
pub open spec fn spec_case_blocks_upto(nps: Seq<NPItemView>, n: int) -> Seq<char>
    decreases n,
{
    if n <= 0 {
        Seq::empty()
    } else {
        spec_case_blocks_upto(nps, n - 1) + ("\t\tcase "@ + spec_dec_digits(
            spec_selector_at(nps, n - 1) as int,
        ) + ":\n"@ + spec_np_assign_optarg(nps[n - 1]) + "\t\t\tbreak;\n"@)
    }
}

pub open spec fn spec_case_blocks(nps: Seq<NPItemView>) -> Seq<char> {
    spec_case_blocks_upto(nps, nps.len() as int)
}

/// How many positional parameters are required and not multi-valued.
pub open spec fn spec_count_req(ps: Seq<PItemView>) -> int
    decreases ps.len(),
{
    if ps.len() == 0 {
        0
    } else {
        spec_count_req(ps.drop_last()) + (if ps.last().required && !ps.last().multi {
            1int
        } else {
            0int
        })
    }
}

/// Whether a required multi-valued positional parameter exists.
pub open spec fn spec_has_req_multi(ps: Seq<PItemView>) -> bool
    decreases ps.len(),
{
    if ps.len() == 0 {
        false
    } else {
        spec_has_req_multi(ps.drop_last()) || (ps.last().required && ps.last().multi)
    }
}

/// The number of non-option arguments the generated code demands: one per
/// required non-multi parameter, one more when a required multi-valued
/// parameter exists.
pub open spec fn spec_nrequired(ps: Seq<PItemView>) -> int {
    spec_count_req(ps) + (if spec_has_req_multi(ps) {
        1int
    } else {
        0int
    })
}

pub open spec fn spec_req_assigns(ps: Seq<PItemView>) -> Seq<char> {
    concat_map(
        ps,
        |p: PItemView|
            if p.required && !p.multi {
                spec_p_assign_argv0(p) + "\targv++;\n"@
            } else {
                Seq::<char>::empty()
            },
    )
}

pub open spec fn spec_req_posts(ps: Seq<PItemView>) -> Seq<char> {
    concat_map(
        ps,
        |p: PItemView|
            if p.required && !p.multi {
                spec_p_post_loop(p)
            } else {
                Seq::<char>::empty()
            },
    )
}

/// The required-positional gate and consumption: check the argument count,
/// shift past the options, consume one token per required parameter.
pub open spec fn spec_req_section(ps: Seq<PItemView>) -> Seq<char> {
    if spec_nrequired(ps) > 0 {
        "\n\tif (argc-optind < "@ + spec_dec_digits(spec_nrequired(ps))
            + ") {\n\t\tusage(argv[0]);\n\t\texit(1);\n\t}\n\targv += optind;\n\targc -= optind;\n\n"@
            + (if spec_count_req(ps) > 0 {
            spec_req_assigns(ps) + (if spec_count_req(ps) == 1 {
                "\targc--;\n\n"@
            } else {
                "\targc -= "@ + spec_dec_digits(spec_count_req(ps)) + ";\n\n"@
            }) + spec_req_posts(ps)
        } else {
            Seq::<char>::empty()
        })
    } else {
        Seq::<char>::empty()
    }
}

pub open spec fn spec_opt_assigns(ps: Seq<PItemView>) -> Seq<char> {
    concat_map(
        ps,
        |p: PItemView|
            if !p.required && !p.multi {
                "\tif (argc > 0) {\n"@ + spec_p_assign_argv0(p) + "\t\targv++; argc--;\n\t}\n"@
            } else {
                Seq::<char>::empty()
            },
    )
}

pub open spec fn spec_opt_posts(ps: Seq<PItemView>) -> Seq<char> {
    concat_map(
        ps,
        |p: PItemView|
            if !p.required && !p.multi {
                spec_p_post_loop(p)
            } else {
                Seq::<char>::empty()
            },
    )
}

/// The first multi-valued positional parameter, if any.
pub open spec fn spec_first_multi(ps: Seq<PItemView>) -> Option<PItemView>
    decreases ps.len(),
{
    if ps.len() == 0 {
        Option::None
    } else if ps[0].multi {
        Option::Some(ps[0])
    } else {
        spec_first_multi(ps.drop_first())
    }
}

/// Consumption of the remaining arguments by the multi-valued parameter.
pub open spec fn spec_multi_section(ps: Seq<PItemView>) -> Seq<char> {
    match spec_first_multi(ps) {
        Option::Some(p) => (if p.required {
            spec_p_assign_argv0(p)
        } else {
            "\tif (argc > 0) {\n"@ + spec_p_assign_argv0(p) + "\t}\n"@
        }) + spec_p_post_loop(p),
        Option::None => Seq::empty(),
    }
}

/// The whole generated `parse_args` function.
pub open spec fn spec_decl(s: SpecView) -> Seq<char> {
    "void parse_args(int argc, char **argv"@ + concat_map(
        s.non_positional,
        |np: NPItemView| spec_np_decl_arg(np),
    ) + concat_map(s.positional, |p: PItemView| spec_p_decl_arg(p)) + ") {\n"@ + concat_map(
        s.non_positional,
        |np: NPItemView| spec_np_isset_decl(np),
    ) + concat_map(s.positional, |p: PItemView| spec_p_isset_decl(p)) + concat_map(
        s.non_positional,
        |np: NPItemView| spec_np_default_decl(np),
    ) + concat_map(s.positional, |p: PItemView| spec_p_default_decl(p))
        + "\tstatic struct option longopts[] = {\n"@ + spec_getopt_table(s.non_positional)
        + "\t\t{\"help\", 0, 0, 'h'},\n\t\t{0, 0, 0, 0}\n\t};\n"@
        + "\tint ch;\n\twhile ((ch = getopt_long(argc, argv, \""@ + spec_optstring(
        s.non_positional,
    ) + "\", longopts, NULL)) != -1) {\n\t\tswitch (ch) {\n"@ + spec_case_blocks(s.non_positional)
        + "\t\tcase 0:\n\t\t\tbreak;\n\t\tcase 'h':\n\t\tdefault:\n\t\t\tusage(argv[0]);\n\t\t\texit(1);\n\t\t}\n\t}\n"@
        + concat_map(s.non_positional, |np: NPItemView| spec_np_post_loop(np)) + spec_req_section(
        s.positional,
    ) + spec_opt_assigns(s.positional) + spec_opt_posts(s.positional) + spec_multi_section(
        s.positional,
    ) + "}\n"@
}

// ---------------------------------------------------------------------------
// Emission: entry-point skeleton
// ---------------------------------------------------------------------------
/// The whole generated `main` function.
pub open spec fn spec_main(s: SpecView) -> Seq<char> {
    "int main(int argc, char **argv) {\n"@ + concat_map(
        s.non_positional,
        |np: NPItemView| spec_np_main_decl(np),
    ) + concat_map(s.positional, |p: PItemView| spec_p_main_decls(p))
        + "\n\tparse_args(argc, argv"@ + concat_map(
        s.non_positional,
        |np: NPItemView| spec_np_call_arg(np),
    ) + concat_map(s.positional, |p: PItemView| spec_p_call_arg(p))
        + ");\n\n\t/* call your code here */\n\treturn 0;\n}\n"@
}

/// The whole generated text blob: headers, usage, parsing routine and
/// entry-point skeleton, in fixed order.
pub open spec fn spec_gen(s: SpecView) -> Seq<char> {
    spec_headers() + "\n\n"@ + spec_usage(s) + "\n"@ + spec_decl(s) + "\n"@ + spec_main(s)
}

// ---------------------------------------------------------------------------
// Exec helpers: one concatenation loop per fragment family
// ---------------------------------------------------------------------------
fn np_decl_args_text(v: &Vec<NonPositionalItem>) -> (r: String)
    ensures
        r@ == concat_map(np_views(v@), |np: NPItemView| spec_np_decl_arg(np)),
{
    let ghost f = |np: NPItemView| spec_np_decl_arg(np);
    let ghost nv = np_views(v@);
    let mut r = String::new();
    let mut i: usize = 0;
    while i < v.len()
        invariant
            0 <= i <= v@.len(),
            nv == np_views(v@),
            nv.len() == v@.len(),
            forall|j: int| 0 <= j < nv.len() ==> #[trigger] nv[j] == v@[j]@,
            r@ =~= concat_map(nv.take(i as int), f),
        decreases v@.len() - i,
    {
        let frag = v[i].cgen_decl_arg();
        r.append(frag.as_str());
        proof {
            lemma_concat_map_take_step(nv, f, i as int);
            assert(r@ =~= concat_map(nv.take(i as int + 1), f));
        }
        i = i + 1;
    }
    proof {
        lemma_concat_map_take_all(nv, f);
    }
    r
}

fn np_isset_decls_text(v: &Vec<NonPositionalItem>) -> (r: String)
    ensures
        r@ == concat_map(np_views(v@), |np: NPItemView| spec_np_isset_decl(np)),
{
    let ghost f = |np: NPItemView| spec_np_isset_decl(np);
    let ghost nv = np_views(v@);
    let mut r = String::new();
    let mut i: usize = 0;
    while i < v.len()
        invariant
            0 <= i <= v@.len(),
            nv == np_views(v@),
            nv.len() == v@.len(),
            forall|j: int| 0 <= j < nv.len() ==> #[trigger] nv[j] == v@[j]@,
            r@ =~= concat_map(nv.take(i as int), f),
        decreases v@.len() - i,
    {
        let frag = v[i].cgen_isset_decl();
        r.append(frag.as_str());
        proof {
            lemma_concat_map_take_step(nv, f, i as int);
            assert(r@ =~= concat_map(nv.take(i as int + 1), f));
        }
        i = i + 1;
    }
    proof {
        lemma_concat_map_take_all(nv, f);
    }
    r
}

fn np_default_decls_text(v: &Vec<NonPositionalItem>) -> (r: String)
    ensures
        r@ == concat_map(np_views(v@), |np: NPItemView| spec_np_default_decl(np)),
{
    let ghost f = |np: NPItemView| spec_np_default_decl(np);
    let ghost nv = np_views(v@);
    let mut r = String::new();
    let mut i: usize = 0;
    while i < v.len()
        invariant
            0 <= i <= v@.len(),
            nv == np_views(v@),
            nv.len() == v@.len(),
            forall|j: int| 0 <= j < nv.len() ==> #[trigger] nv[j] == v@[j]@,
            r@ =~= concat_map(nv.take(i as int), f),
        decreases v@.len() - i,
    {
        let frag = v[i].cgen_default_decl();
        r.append(frag.as_str());
        proof {
            lemma_concat_map_take_step(nv, f, i as int);
            assert(r@ =~= concat_map(nv.take(i as int + 1), f));
        }
        i = i + 1;
    }
    proof {
        lemma_concat_map_take_all(nv, f);
    }
    r
}

fn np_post_loops_text(v: &Vec<NonPositionalItem>) -> (r: String)
    ensures
        r@ == concat_map(np_views(v@), |np: NPItemView| spec_np_post_loop(np)),
{
    let ghost f = |np: NPItemView| spec_np_post_loop(np);
    let ghost nv = np_views(v@);
    let mut r = String::new();
    let mut i: usize = 0;
    while i < v.len()
        invariant
            0 <= i <= v@.len(),
            nv == np_views(v@),
            nv.len() == v@.len(),
            forall|j: int| 0 <= j < nv.len() ==> #[trigger] nv[j] == v@[j]@,
            r@ =~= concat_map(nv.take(i as int), f),
        decreases v@.len() - i,
    {
        let frag = v[i].cgen_post_loop();
        r.append(frag.as_str());
        proof {
            lemma_concat_map_take_step(nv, f, i as int);
            assert(r@ =~= concat_map(nv.take(i as int + 1), f));
        }
        i = i + 1;
    }
    proof {
        lemma_concat_map_take_all(nv, f);
    }
    r
}

fn np_main_decls_text(v: &Vec<NonPositionalItem>) -> (r: String)
    ensures
        r@ == concat_map(np_views(v@), |np: NPItemView| spec_np_main_decl(np)),
{
    let ghost f = |np: NPItemView| spec_np_main_decl(np);
    let ghost nv = np_views(v@);
    let mut r = String::new();
    let mut i: usize = 0;
    while i < v.len()
        invariant
            0 <= i <= v@.len(),
            nv == np_views(v@),
            nv.len() == v@.len(),
            forall|j: int| 0 <= j < nv.len() ==> #[trigger] nv[j] == v@[j]@,
            r@ =~= concat_map(nv.take(i as int), f),
        decreases v@.len() - i,
    {
        let frag = v[i].cgen_main_decl();
        r.append(frag.as_str());
        proof {
            lemma_concat_map_take_step(nv, f, i as int);
            assert(r@ =~= concat_map(nv.take(i as int + 1), f));
        }
        i = i + 1;
    }
    proof {
        lemma_concat_map_take_all(nv, f);
    }
    r
}

fn np_call_args_text(v: &Vec<NonPositionalItem>) -> (r: String)
    ensures
        r@ == concat_map(np_views(v@), |np: NPItemView| spec_np_call_arg(np)),
{
    let ghost f = |np: NPItemView| spec_np_call_arg(np);
    let ghost nv = np_views(v@);
    let mut r = String::new();
    let mut i: usize = 0;
    while i < v.len()
        invariant
            0 <= i <= v@.len(),
            nv == np_views(v@),
            nv.len() == v@.len(),
            forall|j: int| 0 <= j < nv.len() ==> #[trigger] nv[j] == v@[j]@,
            r@ =~= concat_map(nv.take(i as int), f),
        decreases v@.len() - i,
    {
        let frag = v[i].cgen_call_arg();
        r.append(frag.as_str());
        proof {
            lemma_concat_map_take_step(nv, f, i as int);
            assert(r@ =~= concat_map(nv.take(i as int + 1), f));
        }
        i = i + 1;
    }
    proof {
        lemma_concat_map_take_all(nv, f);
    }
    r
}

fn np_helps_text(v: &Vec<NonPositionalItem>) -> (r: String)
    ensures
        r@ == concat_map(np_views(v@), |np: NPItemView| spec_np_help(np)),
{
    let ghost f = |np: NPItemView| spec_np_help(np);
    let ghost nv = np_views(v@);
    let mut r = String::new();
    let mut i: usize = 0;
    while i < v.len()
        invariant
            0 <= i <= v@.len(),
            nv == np_views(v@),
            nv.len() == v@.len(),
            forall|j: int| 0 <= j < nv.len() ==> #[trigger] nv[j] == v@[j]@,
            r@ =~= concat_map(nv.take(i as int), f),
        decreases v@.len() - i,
    {
        let frag = v[i].help();
        r.append(frag.as_str());
        proof {
            lemma_concat_map_take_step(nv, f, i as int);
            assert(r@ =~= concat_map(nv.take(i as int + 1), f));
        }
        i = i + 1;
    }
    proof {
        lemma_concat_map_take_all(nv, f);
    }
    r
}

fn p_decl_args_text(v: &Vec<PositionalItem>) -> (r: String)
    ensures
        r@ == concat_map(p_views(v@), |p: PItemView| spec_p_decl_arg(p)),
{
    let ghost f = |p: PItemView| spec_p_decl_arg(p);
    let ghost pv = p_views(v@);
    let mut r = String::new();
    let mut i: usize = 0;
    while i < v.len()
        invariant
            0 <= i <= v@.len(),
            pv == p_views(v@),
            pv.len() == v@.len(),
            forall|j: int| 0 <= j < pv.len() ==> #[trigger] pv[j] == v@[j]@,
            r@ =~= concat_map(pv.take(i as int), f),
        decreases v@.len() - i,
    {
        let frag = v[i].cgen_decl_arg();
        r.append(frag.as_str());
        proof {
            lemma_concat_map_take_step(pv, f, i as int);
            assert(r@ =~= concat_map(pv.take(i as int + 1), f));
        }
        i = i + 1;
    }
    proof {
        lemma_concat_map_take_all(pv, f);
    }
    r
}

fn p_isset_decls_text(v: &Vec<PositionalItem>) -> (r: String)
    ensures
        r@ == concat_map(p_views(v@), |p: PItemView| spec_p_isset_decl(p)),
{
    let ghost f = |p: PItemView| spec_p_isset_decl(p);
    let ghost pv = p_views(v@);
    let mut r = String::new();
    let mut i: usize = 0;
    while i < v.len()
        invariant
            0 <= i <= v@.len(),
            pv == p_views(v@),
            pv.len() == v@.len(),
            forall|j: int| 0 <= j < pv.len() ==> #[trigger] pv[j] == v@[j]@,
            r@ =~= concat_map(pv.take(i as int), f),
        decreases v@.len() - i,
    {
        let frag = v[i].cgen_isset_decl();
        r.append(frag.as_str());
        proof {
            lemma_concat_map_take_step(pv, f, i as int);
            assert(r@ =~= concat_map(pv.take(i as int + 1), f));
        }
        i = i + 1;
    }
    proof {
        lemma_concat_map_take_all(pv, f);
    }
    r
}

fn p_default_decls_text(v: &Vec<PositionalItem>) -> (r: String)
    ensures
        r@ == concat_map(p_views(v@), |p: PItemView| spec_p_default_decl(p)),
{
    let ghost f = |p: PItemView| spec_p_default_decl(p);
    let ghost pv = p_views(v@);
    let mut r = String::new();
    let mut i: usize = 0;
    while i < v.len()
        invariant
            0 <= i <= v@.len(),
            pv == p_views(v@),
            pv.len() == v@.len(),
            forall|j: int| 0 <= j < pv.len() ==> #[trigger] pv[j] == v@[j]@,
            r@ =~= concat_map(pv.take(i as int), f),
        decreases v@.len() - i,
    {
        let frag = v[i].cgen_default_decl();
        r.append(frag.as_str());
        proof {
            lemma_concat_map_take_step(pv, f, i as int);
            assert(r@ =~= concat_map(pv.take(i as int + 1), f));
        }
        i = i + 1;
    }
    proof {
        lemma_concat_map_take_all(pv, f);
    }
    r
}

fn p_main_decls_text(v: &Vec<PositionalItem>) -> (r: String)
    ensures
        r@ == concat_map(p_views(v@), |p: PItemView| spec_p_main_decls(p)),
{
    let ghost f = |p: PItemView| spec_p_main_decls(p);
    let ghost pv = p_views(v@);
    let mut r = String::new();
    let mut i: usize = 0;
    while i < v.len()
        invariant
            0 <= i <= v@.len(),
            pv == p_views(v@),
            pv.len() == v@.len(),
            forall|j: int| 0 <= j < pv.len() ==> #[trigger] pv[j] == v@[j]@,
            r@ =~= concat_map(pv.take(i as int), f),
        decreases v@.len() - i,
    {
        let frag = v[i].cgen_main_decls();
        r.append(frag.as_str());
        proof {
            lemma_concat_map_take_step(pv, f, i as int);
            assert(r@ =~= concat_map(pv.take(i as int + 1), f));
        }
        i = i + 1;
    }
    proof {
        lemma_concat_map_take_all(pv, f);
    }
    r
}

fn p_call_args_text(v: &Vec<PositionalItem>) -> (r: String)
    ensures
        r@ == concat_map(p_views(v@), |p: PItemView| spec_p_call_arg(p)),
{
    let ghost f = |p: PItemView| spec_p_call_arg(p);
    let ghost pv = p_views(v@);
    let mut r = String::new();
    let mut i: usize = 0;
    while i < v.len()
        invariant
            0 <= i <= v@.len(),
            pv == p_views(v@),
            pv.len() == v@.len(),
            forall|j: int| 0 <= j < pv.len() ==> #[trigger] pv[j] == v@[j]@,
            r@ =~= concat_map(pv.take(i as int), f),
        decreases v@.len() - i,
    {
        let frag = v[i].cgen_call_arg();
        r.append(frag.as_str());
        proof {
            lemma_concat_map_take_step(pv, f, i as int);
            assert(r@ =~= concat_map(pv.take(i as int + 1), f));
        }
        i = i + 1;
    }
    proof {
        lemma_concat_map_take_all(pv, f);
    }
    r
}

fn p_helps_text(v: &Vec<PositionalItem>) -> (r: String)
    ensures
        r@ == concat_map(p_views(v@), |p: PItemView| spec_p_help(p)),
{
    let ghost f = |p: PItemView| spec_p_help(p);
    let ghost pv = p_views(v@);
    let mut r = String::new();
    let mut i: usize = 0;
    while i < v.len()
        invariant
            0 <= i <= v@.len(),
            pv == p_views(v@),
            pv.len() == v@.len(),
            forall|j: int| 0 <= j < pv.len() ==> #[trigger] pv[j] == v@[j]@,
            r@ =~= concat_map(pv.take(i as int), f),
        decreases v@.len() - i,
    {
        let frag = v[i].help();
        r.append(frag.as_str());
        proof {
            lemma_concat_map_take_step(pv, f, i as int);
            assert(r@ =~= concat_map(pv.take(i as int + 1), f));
        }
        i = i + 1;
    }
    proof {
        lemma_concat_map_take_all(pv, f);
    }
    r
}

fn getopt_table_text(v: &Vec<NonPositionalItem>, uniqs: &Vec<u8>) -> (r: String)
    requires
        uniqs@ == spec_selectors(np_views(v@)),
    ensures
        r@ == spec_getopt_table(np_views(v@)),
{
    let ghost nv = np_views(v@);
    let mut r = String::new();
    let mut i: usize = 0;
    while i < v.len()
        invariant
            0 <= i <= v@.len(),
            nv == np_views(v@),
            nv.len() == v@.len(),
            uniqs@ == spec_selectors(nv),
            forall|j: int| 0 <= j < nv.len() ==> #[trigger] nv[j] == v@[j]@,
            r@ =~= spec_getopt_table_upto(nv, i as int),
        decreases v@.len() - i,
    {
        let frag = v[i].cgen_getopt(uniqs[i]);
        r.append(frag.as_str());
        proof {
            assert(uniqs@[i as int] == spec_selector_at(nv, i as int));
            assert(r@ =~= spec_getopt_table_upto(nv, i as int + 1));
        }
        i = i + 1;
    }
    r
}

fn optstring_text(v: &Vec<NonPositionalItem>) -> (r: String)
    ensures
        r@ == spec_optstring(np_views(v@)),
{
    let ghost f = |np: NPItemView| spec_optstring_piece(np);
    let ghost nv = np_views(v@);
    let mut r = String::new();
    let mut i: usize = 0;
    while i < v.len()
        invariant
            0 <= i <= v@.len(),
            nv == np_views(v@),
            nv.len() == v@.len(),
            forall|j: int| 0 <= j < nv.len() ==> #[trigger] nv[j] == v@[j]@,
            r@ =~= concat_map(nv.take(i as int), f),
        decreases v@.len() - i,
    {
        if let Option::Some(s) = &v[i].short {
            r.append(s.as_str());
            if !v[i].is_flag() {
                push_char(&mut r, ':');
            }
        }
        proof {
            lemma_concat_map_take_step(nv, f, i as int);
            assert(r@ =~= concat_map(nv.take(i as int + 1), f));
        }
        i = i + 1;
    }
    push_char(&mut r, 'h');
    proof {
        lemma_concat_map_take_all(nv, f);
        assert(r@ =~= spec_optstring(nv));
    }
    r
}

fn case_blocks_text(v: &Vec<NonPositionalItem>, uniqs: &Vec<u8>) -> (r: String)
    requires
        uniqs@ == spec_selectors(np_views(v@)),
    ensures
        r@ == spec_case_blocks(np_views(v@)),
{
    let ghost nv = np_views(v@);
    let mut r = String::new();
    let mut i: usize = 0;
    while i < v.len()
        invariant
            0 <= i <= v@.len(),
            nv == np_views(v@),
            nv.len() == v@.len(),
            uniqs@ == spec_selectors(nv),
            forall|j: int| 0 <= j < nv.len() ==> #[trigger] nv[j] == v@[j]@,
            r@ =~= spec_case_blocks_upto(nv, i as int),
        decreases v@.len() - i,
    {
        r.append("\t\tcase ");
        let d = dec_string(uniqs[i] as u64);
        r.append(d.as_str());
        r.append(":\n");
        let a = v[i].cgen_assign_optarg();
        r.append(a.as_str());
        r.append("\t\t\tbreak;\n");
        proof {
            assert(uniqs@[i as int] == spec_selector_at(nv, i as int));
            assert(r@ =~= spec_case_blocks_upto(nv, i as int + 1));
        }
        i = i + 1;
    }
    r
}

proof fn lemma_count_req_le(ps: Seq<PItemView>)
    ensures
        0 <= spec_count_req(ps) <= ps.len(),
    decreases ps.len(),
{
    if ps.len() > 0 {
        lemma_count_req_le(ps.drop_last());
    }
}

proof fn lemma_count_req_lt(ps: Seq<PItemView>)
    requires
        spec_has_req_multi(ps),
    ensures
        spec_count_req(ps) < ps.len(),
    decreases ps.len(),
{
    if ps.last().required && ps.last().multi {
        lemma_count_req_le(ps.drop_last());
    } else {
        lemma_count_req_lt(ps.drop_last());
    }
}

fn count_req_items(v: &Vec<PositionalItem>) -> (r: (usize, bool))
    ensures
        r.0 == spec_count_req(p_views(v@)),
        r.1 == spec_has_req_multi(p_views(v@)),
{
    let ghost pv = p_views(v@);
    let mut count: usize = 0;
    let mut has_rm = false;
    let mut i: usize = 0;
    while i < v.len()
        invariant
            0 <= i <= v@.len(),
            pv == p_views(v@),
            pv.len() == v@.len(),
            forall|j: int| 0 <= j < pv.len() ==> #[trigger] pv[j] == v@[j]@,
            count <= i,
            count == spec_count_req(pv.take(i as int)),
            has_rm == spec_has_req_multi(pv.take(i as int)),
        decreases v@.len() - i,
    {
        proof {
            assert(pv.take(i as int + 1).drop_last() =~= pv.take(i as int));
            assert(pv.take(i as int + 1).last() == pv[i as int]);
        }
        if v[i].is_required() {
            if v[i].is_multi() {
                has_rm = true;
            } else {
                count = count + 1;
            }
        }
        i = i + 1;
    }
    proof {
        assert(pv.take(pv.len() as int) =~= pv);
    }
    (count, has_rm)
}

#[verifier::rlimit(50)]
fn req_section_text(v: &Vec<PositionalItem>) -> (r: String)
    ensures
        r@ == spec_req_section(p_views(v@)),
{
    let ghost pv = p_views(v@);
    let n = v.len();
    let (count_req, has_rm) = count_req_items(v);
    proof {
        lemma_count_req_le(pv);
        if has_rm {
            lemma_count_req_lt(pv);
            assert(count_req < n);
        }
    }
    let mut r = String::new();
    if count_req > 0 || has_rm {
        let nreq: usize = if has_rm {
            count_req + 1
        } else {
            count_req
        };
        r.append("\n\tif (argc-optind < ");
        let d = dec_string(nreq as u64);
        r.append(d.as_str());
        r.append(") {\n\t\tusage(argv[0]);\n\t\texit(1);\n\t}\n\targv += optind;\n\targc -= optind;\n\n");
        if count_req > 0 {
            let ghost fa = |p: PItemView|
                if p.required && !p.multi {
                    spec_p_assign_argv0(p) + "\targv++;\n"@
                } else {
                    Seq::<char>::empty()
                };
            let ghost base = r@;
            let mut i: usize = 0;
            while i < v.len()
                invariant
                    0 <= i <= v@.len(),
                    pv == p_views(v@),
                    pv.len() == v@.len(),
                    forall|j: int| 0 <= j < pv.len() ==> #[trigger] pv[j] == v@[j]@,
                    r@ =~= base + concat_map(pv.take(i as int), fa),
                decreases v@.len() - i,
            {
                if v[i].is_required() && !v[i].is_multi() {
                    let a = v[i].cgen_assign_argv0();
                    r.append(a.as_str());
                    r.append("\targv++;\n");
                }
                proof {
                    lemma_concat_map_take_step(pv, fa, i as int);
                    assert(r@ =~= base + concat_map(pv.take(i as int + 1), fa));
                }
                i = i + 1;
            }
            proof {
                lemma_concat_map_take_all(pv, fa);
            }
            if count_req == 1 {
                r.append("\targc--;\n\n");
            } else {
                r.append("\targc -= ");
                let d2 = dec_string(count_req as u64);
                r.append(d2.as_str());
                r.append(";\n\n");
            }
            let ghost fp = |p: PItemView|
                if p.required && !p.multi {
                    spec_p_post_loop(p)
                } else {
                    Seq::<char>::empty()
                };
            let ghost base2 = r@;
            let mut k: usize = 0;
            while k < v.len()
                invariant
                    0 <= k <= v@.len(),
                    pv == p_views(v@),
                    pv.len() == v@.len(),
                    forall|j: int| 0 <= j < pv.len() ==> #[trigger] pv[j] == v@[j]@,
                    r@ =~= base2 + concat_map(pv.take(k as int), fp),
                decreases v@.len() - k,
            {
                if v[k].is_required() && !v[k].is_multi() {
                    let p = v[k].cgen_post_loop();
                    r.append(p.as_str());
                }
                proof {
                    lemma_concat_map_take_step(pv, fp, k as int);
                    assert(r@ =~= base2 + concat_map(pv.take(k as int + 1), fp));
                }
                k = k + 1;
            }
            proof {
                lemma_concat_map_take_all(pv, fp);
            }
        }
    }
    proof {
        assert(r@ =~= spec_req_section(pv));
    }
    r
}

fn opt_assigns_text(v: &Vec<PositionalItem>) -> (r: String)
    ensures
        r@ == spec_opt_assigns(p_views(v@)),
{
    let ghost f = |p: PItemView|
        if !p.required && !p.multi {
            "\tif (argc > 0) {\n"@ + spec_p_assign_argv0(p) + "\t\targv++; argc--;\n\t}\n"@
        } else {
            Seq::<char>::empty()
        };
    let ghost pv = p_views(v@);
    let mut r = String::new();
    let mut i: usize = 0;
    while i < v.len()
        invariant
            0 <= i <= v@.len(),
            pv == p_views(v@),
            pv.len() == v@.len(),
            forall|j: int| 0 <= j < pv.len() ==> #[trigger] pv[j] == v@[j]@,
            r@ =~= concat_map(pv.take(i as int), f),
        decreases v@.len() - i,
    {
        if !v[i].is_required() && !v[i].is_multi() {
            r.append("\tif (argc > 0) {\n");
            let a = v[i].cgen_assign_argv0();
            r.append(a.as_str());
            r.append("\t\targv++; argc--;\n\t}\n");
        }
        proof {
            lemma_concat_map_take_step(pv, f, i as int);
            assert(r@ =~= concat_map(pv.take(i as int + 1), f));
        }
        i = i + 1;
    }
    proof {
        lemma_concat_map_take_all(pv, f);
    }
    r
}

fn opt_posts_text(v: &Vec<PositionalItem>) -> (r: String)
    ensures
        r@ == spec_opt_posts(p_views(v@)),
{
    let ghost f = |p: PItemView|
        if !p.required && !p.multi {
            spec_p_post_loop(p)
        } else {
            Seq::<char>::empty()
        };
    let ghost pv = p_views(v@);
    let mut r = String::new();
    let mut i: usize = 0;
    while i < v.len()
        invariant
            0 <= i <= v@.len(),
            pv == p_views(v@),
            pv.len() == v@.len(),
            forall|j: int| 0 <= j < pv.len() ==> #[trigger] pv[j] == v@[j]@,
            r@ =~= concat_map(pv.take(i as int), f),
        decreases v@.len() - i,
    {
        if !v[i].is_required() && !v[i].is_multi() {
            let p = v[i].cgen_post_loop();
            r.append(p.as_str());
        }
        proof {
            lemma_concat_map_take_step(pv, f, i as int);
            assert(r@ =~= concat_map(pv.take(i as int + 1), f));
        }
        i = i + 1;
    }
    proof {
        lemma_concat_map_take_all(pv, f);
    }
    r
}

fn multi_section_text(v: &Vec<PositionalItem>) -> (r: String)
    ensures
        r@ == spec_multi_section(p_views(v@)),
{
    let ghost pv = p_views(v@);
    proof {
        assert(pv.skip(0) =~= pv);
    }
    let n = v.len();
    let mut r = String::new();
    let mut i: usize = 0;
    while i < n
        invariant
            0 <= i <= n,
            n == v@.len(),
            pv == p_views(v@),
            pv.len() == v@.len(),
            forall|j: int| 0 <= j < pv.len() ==> #[trigger] pv[j] == v@[j]@,
            spec_first_multi(pv) == spec_first_multi(pv.skip(i as int)),
            r@ == Seq::<char>::empty(),
        decreases n - i,
    {
        proof {
            assert(pv.skip(i as int)[0] == pv[i as int]);
            assert(pv.skip(i as int).drop_first() =~= pv.skip(i as int + 1));
        }
        if v[i].is_multi() {
            if v[i].is_required() {
                let a = v[i].cgen_assign_argv0();
                r.append(a.as_str());
            } else {
                r.append("\tif (argc > 0) {\n");
                let a = v[i].cgen_assign_argv0();
                r.append(a.as_str());
                r.append("\t}\n");
            }
            let p = v[i].cgen_post_loop();
            r.append(p.as_str());
            proof {
                assert(r@ =~= spec_multi_section(pv));
            }
            return r;
        }
        i = i + 1;
    }
    proof {
        assert(pv.skip(pv.len() as int) =~= Seq::<PItemView>::empty());
        assert(r@ =~= spec_multi_section(pv));
    }
    r
}

// ---------------------------------------------------------------------------
// Validity carries down to the emitter's needs
// ---------------------------------------------------------------------------
pub proof fn lemma_np_err_none_all(nps: Seq<NPItemView>, i: int)
    requires
        0 <= i <= nps.len(),
        spec_np_err(nps, i) is None,
    ensures
        forall|j: int| i <= j < nps.len() ==> spec_np_validate(#[trigger] nps[j]) is None,
    decreases nps.len() - i,
{
    if i < nps.len() {
        lemma_np_err_none_all(nps, i + 1);
    }
}

/// A valid specification has well-formed short names, as the emitter and the
/// selector allocator need them.
pub proof fn lemma_valid_shorts_wf(s: SpecView)
    requires
        spec_valid(s),
    ensures
        spec_shorts_wf(s.non_positional),
{
    lemma_np_err_none_all(s.non_positional, 0);
    assert forall|i: int|
        0 <= i < s.non_positional.len() && (#[trigger] s.non_positional[i]).short
            is Some implies s.non_positional[i].short->0.len() >= 1 by {
        assert(spec_np_validate(s.non_positional[i]) is None);
    }
}

impl Spec {
    /// Creates the necessary headers in C.
    pub fn cgen_headers(&self) -> (r: String)
        ensures
            r@ == spec_headers(),
    {
        String::from_str("#include<stdlib.h>\n#include<stdio.h>\n#include<string.h>\n#include<getopt.h>\n")
    }

    /// Creates the usage function in C.
    pub fn cgen_usage(&self) -> (r: String)
        ensures
            r@ == spec_usage(self@),
    {
        let ghost pv = p_views(self.positional@);
        let ghost fu = |p: PItemView| spec_usage_pos_piece(p);
        let mut pos = String::new();
        let mut noptional: usize = 0;
        let mut i: usize = 0;
        while i < self.positional.len()
            invariant
                0 <= i <= self.positional@.len(),
                pv == p_views(self.positional@),
                pv.len() == self.positional@.len(),
                forall|j: int| 0 <= j < pv.len() ==> #[trigger] pv[j] == self.positional@[j]@,
                noptional <= i,
                noptional == spec_n_optional(pv.take(i as int)),
                pos@ =~= concat_map(pv.take(i as int), fu),
            decreases self.positional@.len() - i,
        {
            proof {
                assert(pv.take(i as int + 1).drop_last() =~= pv.take(i as int));
                assert(pv.take(i as int + 1).last() == pv[i as int]);
            }
            push_char(&mut pos, ' ');
            if !self.positional[i].is_required() {
                push_char(&mut pos, '[');
                noptional = noptional + 1;
            }
            pos.append(self.positional[i].help_name.as_str());
            if self.positional[i].is_multi() {
                pos.append("...");
            }
            proof {
                lemma_concat_map_take_step(pv, fu, i as int);
                assert(pos@ =~= concat_map(pv.take(i as int + 1), fu));
            }
            i = i + 1;
        }
        proof {
            lemma_concat_map_take_all(pv, fu);
            assert(pv.take(pv.len() as int) =~= pv);
        }
        let brackets = repeat_char(']', noptional);
        pos.append(brackets.as_str());
        let ph = p_helps_text(&self.positional);
        let nph = np_helps_text(&self.non_positional);
        let mut r = String::from_str(
            "static void usage(const char *progname) {\n\tprintf(\"usage: %s [options]",
        );
        r.append(pos.as_str());
        r.append("\\n%s\", progname,\n");
        r.append(ph.as_str());
        r.append("\t       \"  ");
        r.append("-h  --help\\n\"\n");
        r.append("\t       \"  ");
        r.append("      print this usage and exit\\n\"\n");
        r.append(nph.as_str());
        r.append("\t       );\n}\n");
        proof {
            assert(r@ =~= spec_usage(self@));
        }
        r
    }

    /// Creates the parse_args function in C.
    pub fn cgen_decl(&self) -> (r: String)
        requires
            spec_shorts_wf(self@.non_positional),
            spec_can_alloc(self@.non_positional),
        ensures
            r@ == spec_decl(self@),
    {
        let mut body = String::from_str("void parse_args(int argc, char **argv");
        let t1 = np_decl_args_text(&self.non_positional);
        body.append(t1.as_str());
        let t2 = p_decl_args_text(&self.positional);
        body.append(t2.as_str());
        body.append(") {\n");
        let t3 = np_isset_decls_text(&self.non_positional);
        body.append(t3.as_str());
        let t4 = p_isset_decls_text(&self.positional);
        body.append(t4.as_str());
        let t5 = np_default_decls_text(&self.non_positional);
        body.append(t5.as_str());
        let t6 = p_default_decls_text(&self.positional);
        body.append(t6.as_str());
        let uniqs = alloc_selectors(&self.non_positional);
        body.append("\tstatic struct option longopts[] = {\n");
        let t7 = getopt_table_text(&self.non_positional, &uniqs);
        body.append(t7.as_str());
        body.append("\t\t{\"help\", 0, 0, 'h'},\n\t\t{0, 0, 0, 0}\n\t};\n");
        body.append("\tint ch;\n\twhile ((ch = getopt_long(argc, argv, \"");
        let t8 = optstring_text(&self.non_positional);
        body.append(t8.as_str());
        body.append("\", longopts, NULL)) != -1) {\n\t\tswitch (ch) {\n");
        let t9 = case_blocks_text(&self.non_positional, &uniqs);
        body.append(t9.as_str());
        body.append(
            "\t\tcase 0:\n\t\t\tbreak;\n\t\tcase 'h':\n\t\tdefault:\n\t\t\tusage(argv[0]);\n\t\t\texit(1);\n\t\t}\n\t}\n",
        );
        let t10 = np_post_loops_text(&self.non_positional);
        body.append(t10.as_str());
        let t11 = req_section_text(&self.positional);
        body.append(t11.as_str());
        let t12 = opt_assigns_text(&self.positional);
        body.append(t12.as_str());
        let t13 = opt_posts_text(&self.positional);
        body.append(t13.as_str());
        let t14 = multi_section_text(&self.positional);
        body.append(t14.as_str());
        body.append("}\n");
        proof {
            assert(body@ =~= spec_decl(self@));
        }
        body
    }

    /// Creates the main function in C.
    pub fn cgen_main(&self) -> (r: String)
        ensures
            r@ == spec_main(self@),
    {
        let mut r = String::from_str("int main(int argc, char **argv) {\n");
        let a = np_main_decls_text(&self.non_positional);
        r.append(a.as_str());
        let b = p_main_decls_text(&self.positional);
        r.append(b.as_str());
        r.append("\n\tparse_args(argc, argv");
        let c = np_call_args_text(&self.non_positional);
        r.append(c.as_str());
        let d = p_call_args_text(&self.positional);
        r.append(d.as_str());
        r.append(");\n\n\t/* call your code here */\n\treturn 0;\n}\n");
        proof {
            assert(r@ =~= spec_main(self@));
        }
        r
    }

    /// Generates everything.
    pub fn gen(&self) -> (r: String)
        requires
            spec_valid(self@),
            spec_can_alloc(self@.non_positional),
        ensures
            r@ == spec_gen(self@),
    {
        proof {
            lemma_valid_shorts_wf(self@);
        }
        let h = self.cgen_headers();
        let usage_text = self.cgen_usage();
        let body = self.cgen_decl();
        let main_text = self.cgen_main();
        let mut r = String::new();
        r.append(h.as_str());
        r.append("\n\n");
        r.append(usage_text.as_str());
        r.append("\n");
        r.append(body.as_str());
        r.append("\n");
        r.append(main_text.as_str());
        proof {
            assert(r@ =~= spec_gen(self@));
        }
        r
    }
}

} // verus!



