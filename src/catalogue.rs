use crate::pattern::{apply_rule, lemma_settled_text_unchanged, rewrite, settled, Pattern, Rule};
use crate::rules::{
    case_pattern, case_rule, cull_mode_pattern, cull_mode_rule, dimension_pattern, dimension_rule,
    error_arm_pattern, error_arm_rule, extension_pattern, extension_rule, flag_pattern, flag_rule,
    literal_rule, type_digit_pattern, type_digit_rule,
};
use crate::text::{chars_of, string_of};
use vstd::prelude::*;
use vstd::string::*;

verus! {

/// The patterns of a list of rules.
pub open spec fn views(rules: Seq<Rule>) -> Seq<Pattern> {
    rules.map_values(|r: Rule| r@)
}

/// The views of a list of strings.
pub open spec fn texts(labels: Seq<String>) -> Seq<Seq<char>> {
    labels.map_values(|l: String| l@)
}

/// `s` after each pattern of `ps` has been applied, first to last.
pub open spec fn run_all(ps: Seq<Pattern>, s: Seq<char>) -> Seq<char>
    decreases ps.len(),
{
    if ps.len() == 0 {
        s
    } else {
        rewrite(ps.last(), run_all(ps.drop_last(), s))
    }
}

/// The fixed one-off rewrites that follow the generic passes, in order.
pub open spec fn special_patterns() -> Seq<Pattern> {
    seq![
        extension_pattern(),
        Pattern::Literal { old: "vk::types"@, new: "vk"@ },
        Pattern::Literal { old: "VK_"@, new: ""@ },
        Pattern::Literal { old: "vk::SwapchainFn"@, new: "vk::KhrSwapchainFn"@ },
        Pattern::Literal {
            old: "depth: vk::ClearDepthStencilValue"@,
            new: "depth_stencil: vk::ClearDepthStencilValue"@,
        },
        Pattern::Literal { old: "depth: conv::"@, new: "depth_stencil: conv::"@ },
        Pattern::Literal { old: "typ: conv::"@, new: "ty: conv::"@ },
        flag_pattern("vk"@, "COMPOSITE_ALPHA"@, "KHR"@, ""@),
        flag_pattern("vk"@, "SURFACE_TRANSFORM"@, "KHR"@, ""@),
        flag_pattern("vk"@, "SAMPLE_COUNT"@, ""@, "TYPE"@),
        flag_pattern("vk"@, "DEBUG_REPORT"@, "EXT"@, ""@),
        case_pattern(""@, "Dt"@),
        cull_mode_pattern(),
        Pattern::Literal { old: "use ash::vk::Result::*;"@, new: ""@ },
        error_arm_pattern(),
        Pattern::Literal { old: "use vk::ImageType::*;"@, new: ""@ },
        Pattern::TupleArm,
        dimension_pattern(),
        Pattern::Literal {
            old: "pso::Descriptor::Image(VIEW, layout)"@,
            new: "pso::Descriptor::Image(view, layout)"@,
        },
        Pattern::Literal {
            old: "com::AttachmentClear::Color(INDEX, cv)"@,
            new: "com::AttachmentClear::Color(index, cv)"@,
        },
        type_digit_pattern(),
    ]
}

/// The rules for the fixed one-off rewrites, in order.
pub fn special_rules() -> (r: Vec<Rule>)
    ensures
        views(r@) == special_patterns(),
{
    let mut r: Vec<Rule> = Vec::new();
    r.push(extension_rule());
    r.push(literal_rule("vk::types", "vk"));
    r.push(literal_rule("VK_", ""));
    r.push(literal_rule("vk::SwapchainFn", "vk::KhrSwapchainFn"));
    r.push(
        literal_rule(
            "depth: vk::ClearDepthStencilValue",
            "depth_stencil: vk::ClearDepthStencilValue",
        ),
    );
    r.push(literal_rule("depth: conv::", "depth_stencil: conv::"));
    r.push(literal_rule("typ: conv::", "ty: conv::"));
    r.push(flag_rule("COMPOSITE_ALPHA", "vk", "KHR", ""));
    r.push(flag_rule("SURFACE_TRANSFORM", "vk", "KHR", ""));
    r.push(flag_rule("SAMPLE_COUNT", "vk", "", "TYPE"));
    r.push(flag_rule("DEBUG_REPORT", "vk", "EXT", ""));
    r.push(case_rule("Dt", ""));
    r.push(cull_mode_rule());
    r.push(literal_rule("use ash::vk::Result::*;", ""));
    r.push(error_arm_rule());
    r.push(literal_rule("use vk::ImageType::*;", ""));
    r.push(Rule::TupleArm);
    r.push(dimension_rule());
    r.push(
        literal_rule(
            "pso::Descriptor::Image(VIEW, layout)",
            "pso::Descriptor::Image(view, layout)",
        ),
    );
    r.push(
        literal_rule(
            "com::AttachmentClear::Color(INDEX, cv)",
            "com::AttachmentClear::Color(index, cv)",
        ),
    );
    r.push(type_digit_rule());
    assert(views(r@) =~= special_patterns());
    r
}

/// Applies `rules` to the text one after the other, each to the previous one's output.
pub fn run_rules(rules: &Vec<Rule>, source_code: String) -> (r: String)
    ensures
        r@ == run_all(views(rules@), source_code@),
{
    let mut cur = chars_of(source_code.as_str());
    let mut k: usize = 0;
    while k < rules.len()
        invariant
            k <= rules.len(),
            cur@ == run_all(views(rules@).take(k as int), source_code@),
        decreases rules.len() - k,
    {
        cur = apply_rule(&rules[k], &cur);
        k = k + 1;
        assert(views(rules@).take(k as int).drop_last() =~= views(rules@).take(k - 1));
    }
    assert(views(rules@).take(k as int) =~= views(rules@));
    string_of(&cur)
}

/// Running the rules again on converted text, text that no rule has
/// anything left to change in, leaves it unchanged.
pub proof fn lemma_converged_text_unchanged(ps: Seq<Pattern>, s: Seq<char>)
    requires
        forall|k: int| 0 <= k < ps.len() ==> settled(#[trigger] ps[k], s),
    ensures
        run_all(ps, s) == s,
    decreases ps.len(),
{
    if ps.len() > 0 {
        let rest = ps.drop_last();
        assert forall|k: int| 0 <= k < rest.len() implies settled(#[trigger] rest[k], s) by {
            assert(rest[k] == ps[k]);
        }
        lemma_converged_text_unchanged(rest, s);
        assert(settled(ps[ps.len() - 1], s));
        lemma_settled_text_unchanged(ps.last(), s);
    }
}

/// The labels whose variants the standard conversion case-converts.
pub open spec fn standard_case_labels() -> Seq<Seq<char>> {
    seq![
        "SubpassContents"@,
        "StructureType"@,
        "PipelineBindPoint"@,
        "ComponentSwizzle"@,
        "IndexType"@,
        "ImageLayout"@,
        "AttachmentLoadOp"@,
        "SamplerAddressMode"@,
        "BorderColor"@,
        "PrimitiveTopology"@,
        "PolygonMode"@,
        "CompareOp"@,
        "FrontFace"@,
        "StencilOp"@,
        "BlendOp"@,
        "BlendFactor"@,
        "CommandBufferLevel"@,
        "ImageViewType"@,
        "VertexInputRate"@,
        "DynamicState"@,
        "SharingMode"@,
        "ImageLayout"@,
        "Result"@,
        "QueryType"@,
        "PhysicalDeviceType"@,
        "Format"@,
        "ImageType"@,
        "ColorSpaceKHR"@,
        "PresentModeKHR"@,
        "LogicOp"@,
        "AttachmentStoreOp"@,
    ]
}

/// The bit-flag labels that the standard conversion rewrites.
pub open spec fn standard_flag_labels() -> Seq<Seq<char>> {
    seq![
        "COMMAND_BUFFER_RESET"@,
        "IMAGE_ASPECT"@,
        "QUERY_CONTROL"@,
        "SHADER_STAGE"@,
        "COMMAND_POOL_CREATE"@,
        "PIPELINE_CREATE"@,
        "IMAGE_CREATE"@,
        "FENCE_CREATE"@,
        "SURFACE_TRANSFORM"@,
        "QUEUE"@,
        "MEMORY_PROPERTY"@,
        "CULL_MODE"@,
    ]
}

/// The configuration of a conversion: the labels whose variants are
/// case-converted, the labels of bit-flag constants, and their namespaces.
pub struct Catalogue {
    pub namespace: String,
    pub case_labels: Vec<String>,
    pub flag_namespace: String,
    pub flag_labels: Vec<String>,
}

impl Catalogue {
    /// The patterns of the conversion, in the order in which they apply: one
    /// case conversion per case label, one bit-flag rewrite per flag label,
    /// then the fixed one-off rewrites.
    pub open spec fn patterns(&self) -> Seq<Pattern> {
        texts(self.case_labels@).map_values(|l: Seq<char>| case_pattern(self.namespace@, l))
            + texts(self.flag_labels@).map_values(
            |l: Seq<char>| flag_pattern(self.flag_namespace@, l, Seq::empty(), Seq::empty()),
        ) + special_patterns()
    }

    /// The rules of the conversion, in order.
    pub fn rules(&self) -> (r: Vec<Rule>)
        ensures
            views(r@) == self.patterns(),
    {
        let ghost cases = texts(self.case_labels@).map_values(
            |l: Seq<char>| case_pattern(self.namespace@, l),
        );
        let ghost flags = texts(self.flag_labels@).map_values(
            |l: Seq<char>| flag_pattern(self.flag_namespace@, l, Seq::empty(), Seq::empty()),
        );
        let mut r: Vec<Rule> = Vec::new();
        let mut k: usize = 0;
        while k < self.case_labels.len()
            invariant
                k <= self.case_labels.len(),
                views(r@) =~= cases.take(k as int),
                cases == texts(self.case_labels@).map_values(
                    |l: Seq<char>| case_pattern(self.namespace@, l),
                ),
            decreases self.case_labels.len() - k,
        {
            let rule = case_rule(self.case_labels[k].as_str(), self.namespace.as_str());
            let ghost prev = r@;
            r.push(rule);
            assert(views(r@) =~= views(prev).push(rule@));
            assert(texts(self.case_labels@)[k as int] == self.case_labels@[k as int]@);
            assert(cases[k as int] == rule@);
            k = k + 1;
            assert(cases.take(k as int) =~= cases.take(k - 1).push(cases[k - 1]));
        }
        let mut k: usize = 0;
        while k < self.flag_labels.len()
            invariant
                k <= self.flag_labels.len(),
                views(r@) =~= cases + flags.take(k as int),
                flags == texts(self.flag_labels@).map_values(
                    |l: Seq<char>| flag_pattern(self.flag_namespace@, l, Seq::empty(), Seq::empty()),
                ),
            decreases self.flag_labels.len() - k,
        {
            let rule = flag_rule(self.flag_labels[k].as_str(), self.flag_namespace.as_str(), "", "");
            proof {
                reveal_strlit("");
            }
            let ghost prev = r@;
            r.push(rule);
            assert(views(r@) =~= views(prev).push(rule@));
            assert(texts(self.flag_labels@)[k as int] == self.flag_labels@[k as int]@);
            assert(flags[k as int] == rule@);
            k = k + 1;
            assert(flags.take(k as int) =~= flags.take(k - 1).push(flags[k - 1]));
            assert(views(r@) =~= cases + flags.take(k as int));
        }
        let mut special = special_rules();
        let ghost before = r@;
        r.append(&mut special);
        assert(views(r@) =~= views(before) + special_patterns());
        r
    }

    /// The standard conversion: the case labels in the `vk` namespace and the
    /// bit-flag labels without a namespace.
    pub fn standard() -> (r: Catalogue)
        ensures
            r.namespace@ == "vk"@,
            r.flag_namespace@ == ""@,
            texts(r.case_labels@) == standard_case_labels(),
            texts(r.flag_labels@) == standard_flag_labels(),
    {
        let mut case_labels: Vec<String> = Vec::new();
        case_labels.push(String::from_str("SubpassContents"));
        case_labels.push(String::from_str("StructureType"));
        case_labels.push(String::from_str("PipelineBindPoint"));
        case_labels.push(String::from_str("ComponentSwizzle"));
        case_labels.push(String::from_str("IndexType"));
        case_labels.push(String::from_str("ImageLayout"));
        case_labels.push(String::from_str("AttachmentLoadOp"));
        case_labels.push(String::from_str("SamplerAddressMode"));
        case_labels.push(String::from_str("BorderColor"));
        case_labels.push(String::from_str("PrimitiveTopology"));
        case_labels.push(String::from_str("PolygonMode"));
        case_labels.push(String::from_str("CompareOp"));
        case_labels.push(String::from_str("FrontFace"));
        case_labels.push(String::from_str("StencilOp"));
        case_labels.push(String::from_str("BlendOp"));
        case_labels.push(String::from_str("BlendFactor"));
        case_labels.push(String::from_str("CommandBufferLevel"));
        case_labels.push(String::from_str("ImageViewType"));
        case_labels.push(String::from_str("VertexInputRate"));
        case_labels.push(String::from_str("DynamicState"));
        case_labels.push(String::from_str("SharingMode"));
        case_labels.push(String::from_str("ImageLayout"));
        case_labels.push(String::from_str("Result"));
        case_labels.push(String::from_str("QueryType"));
        case_labels.push(String::from_str("PhysicalDeviceType"));
        case_labels.push(String::from_str("Format"));
        case_labels.push(String::from_str("ImageType"));
        case_labels.push(String::from_str("ColorSpaceKHR"));
        case_labels.push(String::from_str("PresentModeKHR"));
        case_labels.push(String::from_str("LogicOp"));
        case_labels.push(String::from_str("AttachmentStoreOp"));
        assert(texts(case_labels@) =~= standard_case_labels());
        let mut flag_labels: Vec<String> = Vec::new();
        flag_labels.push(String::from_str("COMMAND_BUFFER_RESET"));
        flag_labels.push(String::from_str("IMAGE_ASPECT"));
        flag_labels.push(String::from_str("QUERY_CONTROL"));
        flag_labels.push(String::from_str("SHADER_STAGE"));
        flag_labels.push(String::from_str("COMMAND_POOL_CREATE"));
        flag_labels.push(String::from_str("PIPELINE_CREATE"));
        flag_labels.push(String::from_str("IMAGE_CREATE"));
        flag_labels.push(String::from_str("FENCE_CREATE"));
        flag_labels.push(String::from_str("SURFACE_TRANSFORM"));
        flag_labels.push(String::from_str("QUEUE"));
        flag_labels.push(String::from_str("MEMORY_PROPERTY"));
        flag_labels.push(String::from_str("CULL_MODE"));
        assert(texts(flag_labels@) =~= standard_flag_labels());
        Catalogue {
            namespace: String::from_str("vk"),
            case_labels,
            flag_namespace: String::from_str(""),
            flag_labels,
        }
    }

    /// Converts one file's text: every pattern of the catalogue applied in order.
    pub fn process_source(&self, source_code: String) -> (r: String)
        ensures
            r@ == run_all(self.patterns(), source_code@),
    {
        run_rules(&self.rules(), source_code)
    }
}

} // verus!
