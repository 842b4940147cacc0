use crate::casing::{camel, camel_of};
use crate::pattern::{apply_rule, rewrite, Pattern, Rule};
use crate::text::{append_if_non_empty, chars_of, joined, joined_with, led_by, prepend_if_non_empty, string_of};
use vstd::prelude::*;

verus! {

/// `<ns>::<label>::<token>` (no `<ns>::` when `ns` is empty): the token is
/// case-converted.
pub open spec fn case_pattern(ns: Seq<char>, label: Seq<char>) -> Pattern {
    Pattern::CaseConvert { lead: joined_with(ns, "::"@) + label + "::"@ }
}

/// `<ns>::<LABEL>_<TOKEN>_BIT[_<tail>]` becomes
/// `<ns>::<CamelLabel>Flags<tail>::[<head>_]<TOKEN>`.
pub open spec fn flag_pattern(ns: Seq<char>, label: Seq<char>, tail: Seq<char>, head: Seq<char>) -> Pattern {
    Pattern::BitFlag {
        lead: joined_with(ns, "::"@) + label + "_"@,
        trail: "_BIT"@ + led_by(tail, "_"@),
        emit: joined_with(ns, "::"@) + camel_of(label) + "Flags"@ + tail + "::"@ + joined_with(head, "_"@),
    }
}

/// `vk::VK_KHR_<NAME>_EXTENSION_NAME` becomes `ext::<CamelName>::name().to_str().unwrap()`.
pub open spec fn extension_pattern() -> Pattern {
    Pattern::ExtensionName {
        lead: "vk::VK_KHR_"@,
        trail: "_EXTENSION_NAME"@,
        head: "ext::"@,
        tail: "::name().to_str().unwrap()"@,
    }
}

/// `vk::CULL_MODE_<MODE>` becomes `vk::CullModeFlags::<MODE>`.
pub open spec fn cull_mode_pattern() -> Pattern {
    Pattern::Rename { lead: "vk::CULL_MODE_"@, emit: "vk::CullModeFlags::"@ }
}

/// `Error<Name> => ` becomes `vk::Result::ERROR_<NAME> => `.
pub open spec fn error_arm_pattern() -> Pattern {
    Pattern::ErrorArm { lead: "Error"@, emit: "vk::Result::ERROR_"@ }
}

/// `limits.max_image_dimension<d>d` becomes `limits.max_image_dimension<d>_d`.
pub open spec fn dimension_pattern() -> Pattern {
    Pattern::DigitSplit { head: "limits.max_image_dimension"@, tail: "d"@, after: true }
}

/// `TYPE<d>D` becomes `TYPE_<d>D`.
pub open spec fn type_digit_pattern() -> Pattern {
    Pattern::DigitSplit { head: "TYPE"@, tail: "D"@, after: false }
}

/// The rule that case-converts `<ns>::<label>::<token>`.
pub fn case_rule(label: &str, ns: &str) -> (r: Rule)
    ensures
        r@ == case_pattern(ns@, label@),
{
    let sig = append_if_non_empty(ns, "::");
    let lead = joined(&joined(&chars_of(sig.as_str()), &chars_of(label)), &chars_of("::"));
    Rule::CaseConvert { lead }
}

/// The rule that turns `<ns>::<LABEL>_<TOKEN>_BIT[_<tail>]` into a flags path.
pub fn flag_rule(label: &str, ns: &str, tail: &str, head: &str) -> (r: Rule)
    ensures
        r@ == flag_pattern(ns@, label@, tail@, head@),
{
    let sig = chars_of(append_if_non_empty(ns, "::").as_str());
    let head_part = chars_of(append_if_non_empty(head, "_").as_str());
    let tail_part = chars_of(prepend_if_non_empty(tail, "_").as_str());
    let lead = joined(&joined(&sig, &chars_of(label)), &chars_of("_"));
    let trail = joined(&chars_of("_BIT"), &tail_part);
    let name = camel(&chars_of(label));
    let emit = joined(
        &joined(&joined(&joined(&joined(&sig, &name), &chars_of("Flags")), &chars_of(tail)), &chars_of("::")),
        &head_part,
    );
    assert(emit@ =~= joined_with(ns@, "::"@) + camel_of(label@) + "Flags"@ + tail@ + "::"@
        + joined_with(head@, "_"@));
    Rule::BitFlag { lead, trail, emit }
}

/// The rule that replaces each occurrence of a non-empty `old` by `new`.
pub fn literal_rule(old: &str, new: &str) -> (r: Rule)
    ensures
        r@ == (Pattern::Literal { old: old@, new: new@ }),
{
    Rule::Literal { old: chars_of(old), new: chars_of(new) }
}

pub fn extension_rule() -> (r: Rule)
    ensures
        r@ == extension_pattern(),
{
    Rule::ExtensionName {
        lead: chars_of("vk::VK_KHR_"),
        trail: chars_of("_EXTENSION_NAME"),
        head: chars_of("ext::"),
        tail: chars_of("::name().to_str().unwrap()"),
    }
}

pub fn cull_mode_rule() -> (r: Rule)
    ensures
        r@ == cull_mode_pattern(),
{
    Rule::Rename { lead: chars_of("vk::CULL_MODE_"), emit: chars_of("vk::CullModeFlags::") }
}

pub fn error_arm_rule() -> (r: Rule)
    ensures
        r@ == error_arm_pattern(),
{
    Rule::ErrorArm { lead: chars_of("Error"), emit: chars_of("vk::Result::ERROR_") }
}

pub fn dimension_rule() -> (r: Rule)
    ensures
        r@ == dimension_pattern(),
{
    Rule::DigitSplit { head: chars_of("limits.max_image_dimension"), tail: chars_of("d"), after: true }
}

pub fn type_digit_rule() -> (r: Rule)
    ensures
        r@ == type_digit_pattern(),
{
    Rule::DigitSplit { head: chars_of("TYPE"), tail: chars_of("D"), after: false }
}

/// Applies one rule to a whole text.
pub fn apply_to_text(rule: &Rule, source_code: &str) -> (r: String)
    ensures
        r@ == rewrite(rule@, source_code@),
{
    string_of(&apply_rule(rule, &chars_of(source_code)))
}

/// Upper-snake-cases the variant token of each `<ns>::<label>::<token>`.
pub fn process_case_camel_to_snake(source_code: String, main_label: &str, module_signifier: &str) -> (r: String)
    ensures
        r@ == rewrite(case_pattern(module_signifier@, main_label@), source_code@),
{
    apply_to_text(&case_rule(main_label, module_signifier), source_code.as_str())
}

/// Rewrites `<ns>::<LABEL>_<TOKEN>_BIT[_<tail>]` into
/// `<ns>::<CamelLabel>Flags<tail>::[<head>_]<TOKEN>`.
pub fn process_case_bit_flags(
    source_code: String,
    main_label: &str,
    module_signifier: &str,
    extra_tail: &str,
    extra_head: &str,
) -> (r: String)
    ensures
        r@ == rewrite(flag_pattern(module_signifier@, main_label@, extra_tail@, extra_head@), source_code@),
{
    apply_to_text(&flag_rule(main_label, module_signifier, extra_tail, extra_head), source_code.as_str())
}

/// Puts an underscore between `TYPE` and a following digit: `TYPE2D` becomes `TYPE_2D`.
pub fn fix_snake_case_oddities(source_code: String) -> (r: String)
    ensures
        r@ == rewrite(type_digit_pattern(), source_code@),
{
    apply_to_text(&type_digit_rule(), source_code.as_str())
}

/// Rewrites extension-name constants into calls on the extension's type.
pub fn process_surface_extension_name_referrals(source_code: String) -> (r: String)
    ensures
        r@ == rewrite(extension_pattern(), source_code@),
{
    apply_to_text(&extension_rule(), source_code.as_str())
}

/// Rewrites `vk::CULL_MODE_<MODE>` into `vk::CullModeFlags::<MODE>`.
pub fn fix_cull_mode_flags(source_code: String) -> (r: String)
    ensures
        r@ == rewrite(cull_mode_pattern(), source_code@),
{
    apply_to_text(&cull_mode_rule(), source_code.as_str())
}

/// Rewrites match arms `Error<Name> => ` into `vk::Result::ERROR_<NAME> => `.
pub fn fix_error_arms(source_code: String) -> (r: String)
    ensures
        r@ == rewrite(error_arm_pattern(), source_code@),
{
    apply_to_text(&error_arm_rule(), source_code.as_str())
}

/// Upper-snake-cases the first element of each `(<a>, <b>) ... => ` arm.
pub fn fix_tuple_arms(source_code: String) -> (r: String)
    ensures
        r@ == rewrite(Pattern::TupleArm, source_code@),
{
    apply_to_text(&Rule::TupleArm, source_code.as_str())
}

/// Puts an underscore before the final `d` of `limits.max_image_dimension<d>d`.
pub fn fix_image_dimension_fields(source_code: String) -> (r: String)
    ensures
        r@ == rewrite(dimension_pattern(), source_code@),
{
    apply_to_text(&dimension_rule(), source_code.as_str())
}

/// Replaces each occurrence of a non-empty `old` by `new`, from the left and
/// without overlap; an empty `old` leaves the text as it is.
pub fn replace_literal(source_code: String, old: &str, new: &str) -> (r: String)
    ensures
        r@ == rewrite(Pattern::Literal { old: old@, new: new@ }, source_code@),
{
    apply_to_text(&literal_rule(old, new), source_code.as_str())
}

} // verus!
