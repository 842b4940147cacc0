use ash_integrator::rules::{
    fix_cull_mode_flags, fix_error_arms, fix_snake_case_oddities, process_case_bit_flags,
};

const SAMPLES: [&str; 6] = [
    "vk::CULL_MODE_BACK_BIT | SHADER_STAGE_VERTEX_BIT_KHR",
    "SHADER_STAGE_ALL_GRAPHICS_BIT, SHADER_STAGE_VERTEX_BITS",
    "ErrorOutOfDate => x ErrorFoo =>y",
    "TYPE1D TYPE23D TYPE_3D",
    "",
    "SHADER_STAGE__BIT SHADER_STAGE_A_BIT_BIT",
];

#[test]
fn bit_flags_agree_with_regex() {
    let re = regex::Regex::new(r"SHADER_STAGE_([A-Z0-9_]*)_BIT\b").unwrap();
    for text in SAMPLES.iter() {
        let expected = re.replace_all(text, "ShaderStageFlags::$1").into_owned();
        let got = process_case_bit_flags(String::from(*text), "SHADER_STAGE", "", "", "");
        assert_eq!(got, expected);
    }
}

#[test]
fn cull_mode_agrees_with_regex() {
    let re = regex::Regex::new(r"vk::CULL_MODE_([A-Z]*)").unwrap();
    for text in SAMPLES.iter() {
        let expected = re.replace_all(text, "vk::CullModeFlags::$1").into_owned();
        assert_eq!(fix_cull_mode_flags(String::from(*text)), expected);
    }
}

#[test]
fn type_digit_agrees_with_regex() {
    let re = regex::Regex::new(r"TYPE([0-9])D").unwrap();
    for text in SAMPLES.iter() {
        let expected = re.replace_all(text, "TYPE_${1}D").into_owned();
        assert_eq!(fix_snake_case_oddities(String::from(*text)), expected);
    }
}

#[test]
fn error_arm_matches_agree_with_regex() {
    let re = regex::Regex::new(r"Error([a-zA-Z]*)\s=>\s").unwrap();
    for text in SAMPLES.iter() {
        let n = re.find_iter(text).count();
        let got = fix_error_arms(String::from(*text));
        assert_eq!(got.matches("vk::Result::ERROR_").count(), n);
    }
}
