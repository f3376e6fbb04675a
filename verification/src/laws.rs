//! Crate-level laws: what validation guarantees about ordering and
//! multi-valued placement, and what emission guarantees about the generated
//! text.
use crate::codegen::{
    spec_decl, spec_gen, spec_headers, spec_main, spec_p_validate, spec_pos_err, spec_usage,
    spec_valid, spec_validate, SpecView, ValidationErrorView,
};
use crate::item::PItemView;
use crate::text::{contains_pat, occurs_at};
use vstd::prelude::*;

verus! {

proof fn lemma_pos_err_none_facts(ps: Seq<PItemView>, i: int, saw: bool)
    requires
        0 <= i <= ps.len(),
        spec_pos_err(ps, i, saw) is None,
    ensures
        forall|j: int| i <= j < ps.len() ==> spec_p_validate(#[trigger] ps[j]) is None,
        forall|j: int| i <= j < ps.len() && (#[trigger] ps[j]).multi ==> j == ps.len() - 1,
        forall|j: int| i <= j < ps.len() && (#[trigger] ps[j]).required ==> !saw,
        forall|k: int, j: int|
            i <= k < j < ps.len() && (#[trigger] ps[j]).required ==> (#[trigger] ps[k]).required,
    decreases ps.len() - i,
{
    if i < ps.len() {
        lemma_pos_err_none_facts(ps, i + 1, saw || !ps[i].required);
    }
}

/// A required positional parameter after an optional one makes the whole
/// specification invalid, whatever else it holds.
pub proof fn lemma_required_after_optional_fails(s: SpecView, i: int, j: int)
    requires
        0 <= i < j < s.positional.len(),
        !s.positional[i].required,
        s.positional[j].required,
    ensures
        !spec_valid(s),
{
    if spec_valid(s) {
        lemma_pos_err_none_facts(s.positional, 0, false);
        assert(s.positional[i].required);
        assert(false);
    }
}

/// A multi-valued positional parameter anywhere but last makes the whole
/// specification invalid, whatever else it holds.
pub proof fn lemma_multi_not_last_fails(s: SpecView, i: int)
    requires
        0 <= i < s.positional.len() - 1,
        s.positional[i].multi,
    ensures
        !spec_valid(s),
{
    if spec_valid(s) {
        lemma_pos_err_none_facts(s.positional, 0, false);
        assert(false);
    }
}

proof fn lemma_pos_err_steps(ps: Seq<PItemView>, k: int, j: int, saw: bool)
    requires
        0 <= k <= j <= ps.len(),
        saw == (exists|i: int| 0 <= i < k && !(#[trigger] ps[i]).required),
        forall|i: int| k <= i < j ==> spec_p_validate(#[trigger] ps[i]) is None,
        forall|i: int| k <= i < j ==> !((#[trigger] ps[i]).multi && i != ps.len() - 1),
        forall|i: int|
            k <= i < j && (#[trigger] ps[i]).required ==> !(exists|i2: int|
                0 <= i2 < i && !(#[trigger] ps[i2]).required),
    ensures
        spec_pos_err(ps, k, saw) == spec_pos_err(
            ps,
            j,
            exists|i: int| 0 <= i < j && !(#[trigger] ps[i]).required,
        ),
    decreases j - k,
{
    if k < j {
        let saw2 = saw || !ps[k].required;
        assert(saw2 == (exists|i: int| 0 <= i < k + 1 && !(#[trigger] ps[i]).required)) by {
            if saw2 {
                if !ps[k].required {
                    assert(0 <= k < k + 1 && !ps[k].required);
                } else {
                    let w = choose|i: int| 0 <= i < k && !(#[trigger] ps[i]).required;
                    assert(0 <= w < k + 1 && !ps[w].required);
                }
            } else {
                assert forall|i: int| 0 <= i < k + 1 implies (#[trigger] ps[i]).required by {
                    if i < k {
                        assert(!(0 <= i < k && !ps[i].required));
                    }
                }
            }
        }
        assert(spec_pos_err(ps, k, saw) == spec_pos_err(ps, k + 1, saw2));
        lemma_pos_err_steps(ps, k + 1, j, saw2);
    }
}

/// Where every positional parameter up to `j` passes its own checks, no
/// earlier parameter breaks the multi-is-last rule, `j` is the first
/// ordering violation, and an optional parameter stands before the required
/// `j`, validation reports exactly the ordering error, naming `j`'s label.
pub proof fn lemma_ordering_error_precise(s: SpecView, j: int)
    requires
        0 <= j < s.positional.len(),
        s.positional[j].required,
        exists|i: int| 0 <= i < j && !(#[trigger] s.positional[i]).required,
        forall|i: int| 0 <= i <= j ==> spec_p_validate(#[trigger] s.positional[i]) is None,
        forall|i: int|
            0 <= i < j ==> !((#[trigger] s.positional[i]).multi && i != s.positional.len() - 1),
        forall|i: int|
            0 <= i < j && (#[trigger] s.positional[i]).required ==> !(exists|i2: int|
                0 <= i2 < i && !(#[trigger] s.positional[i2]).required),
    ensures
        spec_validate(s) == Option::Some(
            ValidationErrorView::RequiredPositionalGoesBeforeOptionPositional(
                s.positional[j].help_name,
            ),
        ),
{
    let ps = s.positional;
    assert(!(exists|i: int| 0 <= i < 0 && !(#[trigger] ps[i]).required));
    lemma_pos_err_steps(ps, 0, j, false);
}

/// Where every positional parameter up to `j` passes its own checks, the
/// ordering rule holds up to `j`, no earlier parameter breaks the
/// multi-is-last rule, and `j` is multi-valued but not last, validation
/// reports exactly the multi-must-be-last error, naming `j`'s label.
pub proof fn lemma_multi_error_precise(s: SpecView, j: int)
    requires
        0 <= j < s.positional.len(),
        s.positional[j].multi,
        j != s.positional.len() - 1,
        forall|i: int| 0 <= i <= j ==> spec_p_validate(#[trigger] s.positional[i]) is None,
        forall|i: int|
            0 <= i < j ==> !((#[trigger] s.positional[i]).multi && i != s.positional.len() - 1),
        forall|i: int|
            0 <= i <= j && (#[trigger] s.positional[i]).required ==> !(exists|i2: int|
                0 <= i2 < i && !(#[trigger] s.positional[i2]).required),
    ensures
        spec_validate(s) == Option::Some(
            ValidationErrorView::MultiMustBeLast(s.positional[j].help_name),
        ),
{
    let ps = s.positional;
    assert(!(exists|i: int| 0 <= i < 0 && !(#[trigger] ps[i]).required));
    lemma_pos_err_steps(ps, 0, j, false);
}

/// Emission is a pure function of the validated model: two runs over the
/// same model yield byte-identical text.
pub proof fn lemma_gen_deterministic(s: SpecView, t1: Seq<char>, t2: Seq<char>)
    requires
        t1 == spec_gen(s),
        t2 == spec_gen(s),
    ensures
        t1 == t2,
{
}

/// The emitted text is never empty, and it holds the parsing-routine
/// declaration and the entry-point declaration. (That validation succeeds on
/// every valid specification is `Spec::validate`'s own contract.)
pub proof fn lemma_gen_emits_routines(s: SpecView)
    ensures
        spec_gen(s).len() > 0,
        contains_pat(spec_gen(s), "void parse_args(int argc, char **argv"@),
        contains_pat(spec_gen(s), "int main(int argc, char **argv) {\n"@),
{
    let t = spec_gen(s);
    let h = spec_headers();
    let u = spec_usage(s);
    let d = spec_decl(s);
    let m = spec_main(s);
    let l1 = "void parse_args(int argc, char **argv"@;
    let l2 = "int main(int argc, char **argv) {\n"@;
    reveal_strlit("int main(int argc, char **argv) {\n");
    let i0 = h.len() + "\n\n"@.len() + u.len() + "\n"@.len();
    assert(d.len() >= l1.len());
    assert forall|k: int| 0 <= k < l1.len() implies d[k] == l1[k] by {}
    assert forall|k: int| 0 <= k < l1.len() implies t[i0 + k] == d[k] by {}
    assert(t.subrange(i0 as int, (i0 + l1.len()) as int) =~= l1);
    assert(occurs_at(t, l1, i0 as int));
    let i1 = i0 + d.len() + "\n"@.len();
    assert forall|k: int| 0 <= k < l2.len() implies m[k] == l2[k] by {}
    assert forall|k: int| 0 <= k < l2.len() implies t[i1 + k] == m[k] by {}
    assert(t.subrange(i1 as int, (i1 + l2.len()) as int) =~= l2);
    assert(occurs_at(t, l2, i1 as int));
    assert(t.len() > 0);
}

} // verus!
