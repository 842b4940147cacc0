use ash_integrator::catalogue::{run_rules, Catalogue};
use ash_integrator::rules::{
    fix_cull_mode_flags, fix_error_arms, fix_image_dimension_fields, fix_snake_case_oddities,
    fix_tuple_arms, process_case_bit_flags, process_case_camel_to_snake,
    process_surface_extension_name_referrals, replace_literal,
};
use ash_integrator::text::{append_if_non_empty, prepend_if_non_empty};

fn s(text: &str) -> String {
    String::from(text)
}

#[test]
fn append_adds_tail_to_non_empty_input() {
    assert_eq!(append_if_non_empty("vk", "::"), "vk::");
    assert_eq!(append_if_non_empty("", "::"), "");
}

#[test]
fn prepend_adds_head_to_non_empty_input() {
    assert_eq!(prepend_if_non_empty("KHR", "_"), "_KHR");
    assert_eq!(prepend_if_non_empty("", "_"), "");
}

#[test]
fn case_converter_with_namespace() {
    let out = process_case_camel_to_snake(s("ns::Label::some token"), "Label", "ns");
    assert_eq!(out, "ns::Label::SOME_TOKEN");
}

#[test]
fn case_converter_without_namespace() {
    let out = process_case_camel_to_snake(s("Label::some token"), "Label", "");
    assert_eq!(out, "Label::SOME_TOKEN");
}

#[test]
fn case_converter_stops_at_other_characters() {
    let out = process_case_camel_to_snake(s("x = vk::ImageLayout::ColorAttachmentOptimal;"), "ImageLayout", "vk");
    assert_eq!(out, "x = vk::ImageLayout::COLOR_ATTACHMENT_OPTIMAL;");
}

#[test]
fn case_converter_leaves_other_labels() {
    let text = "vk::Format::Undefined and vk::ImageType::Type2d";
    let out = process_case_camel_to_snake(s(text), "ImageLayout", "vk");
    assert_eq!(out, text);
}

#[test]
fn bit_flag_without_tail() {
    let out = process_case_bit_flags(s("ns::SHADER_STAGE_VERTEX_BIT"), "SHADER_STAGE", "ns", "", "");
    assert_eq!(out, "ns::ShaderStageFlags::VERTEX");
}

#[test]
fn bit_flag_with_tail() {
    let out = process_case_bit_flags(s("vk::COMPOSITE_ALPHA_OPAQUE_BIT_KHR"), "COMPOSITE_ALPHA", "vk", "KHR", "");
    assert_eq!(out, "vk::CompositeAlphaFlagsKHR::OPAQUE");
}

#[test]
fn bit_flag_with_head() {
    let out = process_case_bit_flags(s("vk::SAMPLE_COUNT_1_BIT | vk::SAMPLE_COUNT_4_BIT"), "SAMPLE_COUNT", "vk", "", "TYPE");
    assert_eq!(out, "vk::SampleCountFlags::TYPE_1 | vk::SampleCountFlags::TYPE_4");
}

#[test]
fn bit_flag_token_with_underscores() {
    let out = process_case_bit_flags(s("MEMORY_PROPERTY_HOST_VISIBLE_BIT,"), "MEMORY_PROPERTY", "", "", "");
    assert_eq!(out, "MemoryPropertyFlags::HOST_VISIBLE,");
}

#[test]
fn bit_flag_needs_word_boundary() {
    let text = "SHADER_STAGE_VERTEX_BIT_KHR SHADER_STAGE_VERTEX_BITS";
    let out = process_case_bit_flags(s(text), "SHADER_STAGE", "", "", "");
    assert_eq!(out, text);
}

#[test]
fn type_digit_split() {
    assert_eq!(fix_snake_case_oddities(s("TYPE2D")), "TYPE_2D");
    assert_eq!(fix_snake_case_oddities(s("TYPED TYPE_2D")), "TYPED TYPE_2D");
}

#[test]
fn image_dimension_field() {
    let out = fix_image_dimension_fields(s("let w = limits.max_image_dimension2d;"));
    assert!(out.contains("limits.max_image_dimension2_d"));
    assert_eq!(out, "let w = limits.max_image_dimension2_d;");
}

#[test]
fn extension_name_referral() {
    let out = process_surface_extension_name_referrals(s("[vk::VK_KHR_SURFACE_EXTENSION_NAME]"));
    assert_eq!(out, "[ext::Surface::name().to_str().unwrap()]");
}

#[test]
fn cull_mode_cleanup() {
    assert_eq!(fix_cull_mode_flags(s("vk::CULL_MODE_FRONT,")), "vk::CullModeFlags::FRONT,");
}

#[test]
fn error_arm() {
    let out = fix_error_arms(s("ErrorOutOfHostMemory => x"));
    assert_eq!(out, "vk::Result::ERROR_OUT_OF_HOST_MEMORY => x");
}

#[test]
fn error_arm_needs_arrow() {
    let text = "ErrorOutOfHostMemory, x";
    assert_eq!(fix_error_arms(s(text)), text);
}

#[test]
fn tuple_arm() {
    let out = fix_tuple_arms(s("(ColorAttachment,\tcount) if ok =>\nx"));
    assert_eq!(out, "(COLOR_ATTACHMENT, count) if ok => x");
}

#[test]
fn literal_replacement_is_left_to_right() {
    assert_eq!(replace_literal(s("aaa"), "aa", "b"), "ba");
    assert_eq!(replace_literal(s("VK_FOO VK_BAR"), "VK_", ""), "FOO BAR");
    assert_eq!(replace_literal(s("abc"), "", "x"), "abc");
}

#[test]
fn empty_text_stays_empty() {
    assert_eq!(Catalogue::standard().process_source(s("")), "");
    assert_eq!(fix_tuple_arms(s("")), "");
}

#[test]
fn unmatched_text_kept_byte_for_byte() {
    let out = process_case_bit_flags(s("a é\tSHADER_STAGE_VERTEX_BIT; z"), "SHADER_STAGE", "", "", "");
    assert_eq!(out, "a é\tShaderStageFlags::VERTEX; z");
}

#[test]
fn cull_mode_cleanup_order_matters() {
    let text = "vk::CULL_MODE_BACK_BIT";
    let after = fix_cull_mode_flags(process_case_bit_flags(s(text), "CULL_MODE", "", "", ""));
    let before = process_case_bit_flags(fix_cull_mode_flags(s(text)), "CULL_MODE", "", "", "");
    assert_eq!(after, "vk::CullModeFlags::BACK");
    assert_eq!(before, "vk::CullModeFlags::BACK_BIT");
    assert_ne!(after, before);
}

#[test]
fn standard_conversion_of_a_sample() {
    let text = "use ash::vk::Result::*;\n\
        let f = vk::SHADER_STAGE_VERTEX_BIT;\n\
        let l = vk::ImageLayout::General;\n\
        let t = vk::ImageType::TYPE2D;\n\
        let w = limits.max_image_dimension3d;\n";
    let out = Catalogue::standard().process_source(s(text));
    assert_eq!(
        out,
        "\n\
        let f = vk::ShaderStageFlags::VERTEX;\n\
        let l = vk::ImageLayout::GENERAL;\n\
        let t = vk::ImageType::TYPE_2D;\n\
        let w = limits.max_image_dimension3_d;\n"
    );
}

#[test]
fn rerun_on_converted_text_is_no_op() {
    let text = "let f = vk::SHADER_STAGE_VERTEX_BIT | vk::SHADER_STAGE_FRAGMENT_BIT;\n\
        let m = vk::CULL_MODE_NONE;\n\
        ErrorDeviceLost => panic,\n\
        let n = vk::VK_KHR_SWAPCHAIN_EXTENSION_NAME;\n";
    let catalogue = Catalogue::standard();
    let once = catalogue.process_source(s(text));
    let twice = catalogue.process_source(once.clone());
    assert_ne!(once, text);
    assert_eq!(twice, once);
}

#[test]
fn synthetic_catalogue() {
    let catalogue = Catalogue {
        namespace: s("gl"),
        case_labels: vec![s("Mode")],
        flag_namespace: s("gl"),
        flag_labels: vec![s("ACCESS")],
    };
    let out = catalogue.process_source(s("gl::Mode::fastPath; gl::ACCESS_READ_BIT"));
    assert_eq!(out, "gl::Mode::FAST_PATH; gl::AccessFlags::READ");
}

#[test]
fn standard_catalogue_rule_list() {
    let catalogue = Catalogue::standard();
    assert_eq!(catalogue.namespace, "vk");
    assert_eq!(catalogue.flag_namespace, "");
    assert_eq!(catalogue.case_labels.len(), 31);
    assert_eq!(catalogue.flag_labels.len(), 12);
    let rules = catalogue.rules();
    assert_eq!(rules.len(), 31 + 12 + 21);
    let text = "vk::DEBUG_REPORT_ERROR_BIT_EXT; Dt::a b";
    assert_eq!(run_rules(&rules, String::from(text)), catalogue.process_source(String::from(text)));
    assert_eq!(run_rules(&rules, String::from(text)), "vk::DebugReportFlagsEXT::ERROR; Dt::A_B");
}
