//! Service registry: maps pipeline stages to service URLs.

use crate::settings::{
    number_with_default, pairs_view, setting, setting_of, setting_or, setting_with_default,
    number_setting,
};
use crate::pipeline_types::mvp_stages;
use crate::text::{decimal, law_numbers_are_read_back, plus, same_text};
use vstd::prelude::*;
use vstd::string::*;
use vstd::utf8::is_ascii_chars;

verus! {

/// The names of the minimal pipeline's stages, in pipeline order.
pub fn stage_names() -> (r: Vec<&'static str>)
    ensures
        r@.len() == mvp_names().len(),
        forall|i: int| 0 <= i < r@.len() ==> (#[trigger] r@[i])@ == mvp_names()[i],
{
    vec![
        "Planning",
        "Research",
        "Script",
        "Tts",
        "AsrValidation",
        "Captions",
        "RenderFinal",
        "QaFinal",
    ]
}

/// The names of the minimal pipeline's stages, in pipeline order.
pub open spec fn mvp_names() -> Seq<Seq<char>> {
    seq![
        "Planning"@,
        "Research"@,
        "Script"@,
        "Tts"@,
        "AsrValidation"@,
        "Captions"@,
        "RenderFinal"@,
        "QaFinal"@,
    ]
}

/// Maps stage names to service base URLs.
#[derive(Debug, Clone)]
pub struct ServiceRegistry {
    pub urls: Vec<(String, String)>,
}

impl View for ServiceRegistry {
    type V = Map<Seq<char>, Seq<char>>;

    open spec fn view(&self) -> Map<Seq<char>, Seq<char>> {
        pairs_view(self.urls@)
    }
}

/// The base URLs of the services under the given settings.
pub open spec fn configured_urls(vars: Seq<(String, String)>) -> Map<Seq<char>, Seq<char>> {
    map![
        "Planning"@ => setting_or(vars, "PLANNER_URL"@, "http://127.0.0.1:3191"@),
        "Research"@ => setting_or(vars, "RESEARCH_URL"@, "http://127.0.0.1:3192"@),
        "Script"@ => setting_or(vars, "SCRIPT_URL"@, "http://127.0.0.1:3193"@),
        "Tts"@ => setting_or(vars, "TTS_URL"@, "http://127.0.0.1:3194"@),
        "AsrValidation"@ => setting_or(vars, "ASR_URL"@, "http://127.0.0.1:3195"@),
        "Captions"@ => setting_or(vars, "CAPTIONS_URL"@, "http://127.0.0.1:3196"@),
        "RenderFinal"@ => setting_or(vars, "RENDER_URL"@, "http://127.0.0.1:3197"@),
        "QaFinal"@ => setting_or(vars, "QA_URL"@, "http://127.0.0.1:3198"@),
    ]
}

/// The path at which a stage's service takes requests.
pub open spec fn stage_path(stage: Seq<char>) -> Seq<char> {
    if stage == "Planning"@ {
        "/plan"@
    } else if stage == "Research"@ {
        "/research"@
    } else if stage == "Script"@ {
        "/script"@
    } else if stage == "Tts"@ {
        "/tts"@
    } else if stage == "AsrValidation"@ {
        "/validate"@
    } else if stage == "Captions"@ {
        "/captions"@
    } else if stage == "RenderFinal"@ {
        "/render"@
    } else if stage == "QaFinal"@ {
        "/qa"@
    } else {
        "/healthz"@
    }
}

/// The URL to which a stage's requests go; `None` for an unknown service.
pub open spec fn endpoint(urls: Map<Seq<char>, Seq<char>>, stage: Seq<char>) -> Option<Seq<char>> {
    if urls.contains_key(stage) {
        Some(urls[stage] + stage_path(stage))
    } else {
        None
    }
}

/// The URL at which a stage's service says whether it is up.
pub open spec fn health_url(urls: Map<Seq<char>, Seq<char>>, stage: Seq<char>) -> Option<
    Seq<char>,
> {
    if urls.contains_key(stage) {
        Some(urls[stage] + "/healthz"@)
    } else {
        None
    }
}

/// The characters of an optional string.
pub open spec fn text_view(s: Option<String>) -> Option<Seq<char>> {
    match s {
        Some(t) => Some(t@),
        None => None,
    }
}

fn put(urls: &mut Vec<(String, String)>, stage: &str, url: &str)
    ensures
        pairs_view(final(urls)@) == pairs_view(old(urls)@).insert(stage@, url@),
{
    let ghost before = urls@;
    urls.push((stage.to_string(), url.to_string()));
    assert(urls@.drop_last() =~= before);
}

impl ServiceRegistry {
    /// The registry under the given settings; a service that they do not place
    /// is on the local machine.
    pub fn from_env(vars: &Vec<(String, String)>) -> (r: ServiceRegistry)
        ensures
            r@ == configured_urls(vars@),
    {
        let mut urls: Vec<(String, String)> = Vec::new();
        put(
            &mut urls,
            "Planning",
            setting_with_default(vars, "PLANNER_URL", "http://127.0.0.1:3191"),
        );
        put(
            &mut urls,
            "Research",
            setting_with_default(vars, "RESEARCH_URL", "http://127.0.0.1:3192"),
        );
        put(
            &mut urls,
            "Script",
            setting_with_default(vars, "SCRIPT_URL", "http://127.0.0.1:3193"),
        );
        put(&mut urls, "Tts", setting_with_default(vars, "TTS_URL", "http://127.0.0.1:3194"));
        put(
            &mut urls,
            "AsrValidation",
            setting_with_default(vars, "ASR_URL", "http://127.0.0.1:3195"),
        );
        put(
            &mut urls,
            "Captions",
            setting_with_default(vars, "CAPTIONS_URL", "http://127.0.0.1:3196"),
        );
        put(
            &mut urls,
            "RenderFinal",
            setting_with_default(vars, "RENDER_URL", "http://127.0.0.1:3197"),
        );
        put(&mut urls, "QaFinal", setting_with_default(vars, "QA_URL", "http://127.0.0.1:3198"));
        ServiceRegistry { urls }
    }

    /// The registry of the given stages and URLs.
    pub fn from_map(urls: Vec<(String, String)>) -> (r: ServiceRegistry)
        ensures
            r@ == pairs_view(urls@),
    {
        ServiceRegistry { urls }
    }

    /// The URL to which a stage's requests go.
    pub fn endpoint_for(&self, stage: &str) -> (r: Option<String>)
        ensures
            text_view(r) == endpoint(self@, stage@),
    {
        match setting(&self.urls, stage) {
            Some(base) => Some(plus(base.to_string(), stage_to_path(stage))),
            None => None,
        }
    }

    /// The URL at which a stage's service says whether it is up.
    pub fn healthz_url(&self, stage: &str) -> (r: Option<String>)
        ensures
            text_view(r) == health_url(self@, stage@),
    {
        match setting(&self.urls, stage) {
            Some(base) => Some(plus(base.to_string(), "/healthz")),
            None => None,
        }
    }
}

/// Map stage names to their service endpoint paths.
pub fn stage_to_path(stage: &str) -> (r: &'static str)
    ensures
        r@ == stage_path(stage@),
{
    if same_text(stage, "Planning") {
        "/plan"
    } else if same_text(stage, "Research") {
        "/research"
    } else if same_text(stage, "Script") {
        "/script"
    } else if same_text(stage, "Tts") {
        "/tts"
    } else if same_text(stage, "AsrValidation") {
        "/validate"
    } else if same_text(stage, "Captions") {
        "/captions"
    } else if same_text(stage, "RenderFinal") {
        "/render"
    } else if same_text(stage, "QaFinal") {
        "/qa"
    } else {
        "/healthz"
    }
}

/// A text in upper case, by `str::to_uppercase`.
pub uninterp spec fn uppercase(s: Seq<char>) -> Seq<char>;

/// The upper case of an ASCII character.
pub open spec fn ascii_uppercase(c: char) -> char {
    if 'a' <= c && c <= 'z' {
        (c as u32 - 32) as char
    } else {
        c
    }
}

/// A text in upper case: `str::to_uppercase`.
///
/// Claimed: the result depends on the text alone, and of a text of ASCII
/// characters it is the text with each letter from `a` to `z` raised.
#[verifier::external_body]
fn to_uppercase(s: &str) -> (r: String)
    ensures
        r@ == uppercase(s@),
        is_ascii_chars(s@) ==> r@ == s@.map_values(|c: char| ascii_uppercase(c)),
{
    s.to_uppercase()
}

/// A text in upper case. For ASCII characters that is written out here.
pub open spec fn raised(s: Seq<char>) -> Seq<char> {
    if is_ascii_chars(s) {
        s.map_values(|c: char| ascii_uppercase(c))
    } else {
        uppercase(s)
    }
}

/// Whether a stage's service needs the shared GPU host.
pub open spec fn on_gpu(stage: Seq<char>) -> bool {
    stage == "Tts"@ || stage == "AsrValidation"@ || stage == "RenderFinal"@
}

/// The retry limit of a stage that is not set apart: twice the base limit on
/// the GPU, which is shared and so expected to be down more often, and the base
/// limit elsewhere. The doubling stops at the largest number.
pub open spec fn usual_attempts(stage: Seq<char>, default: u32) -> u32 {
    if on_gpu(stage) {
        if 2 * default > u32::MAX {
            u32::MAX
        } else {
            (2 * default) as u32
        }
    } else {
        default
    }
}

/// The retry limit of a stage under the given settings.
pub open spec fn max_attempts(stage: Seq<char>, default: u32, vars: Seq<(String, String)>) -> nat {
    number_setting(
        vars,
        "MAX_RETRY_"@ + raised(stage),
        u32::MAX as nat,
        usual_attempts(stage, default) as nat,
    )
}

/// Return the max retry attempts for a stage.
///
/// GPU-bound stages (TTS, ASR, Render) get more retries because their services
/// are expected to be down more often. CPU-bound stages use the default limit.
/// A setting such as `MAX_RETRY_TTS` overrides the limit of one stage.
pub fn max_attempts_for_stage(stage: &str, default: u32, vars: &Vec<(String, String)>) -> (r: u32)
    ensures
        r as nat == max_attempts(stage@, default, vars@),
{
    let key = plus("MAX_RETRY_".to_string(), to_uppercase(stage).as_str());
    let gpu = same_text(stage, "Tts") || same_text(stage, "AsrValidation") || same_text(
        stage,
        "RenderFinal",
    );
    let usual: u32 = if gpu {
        if default > u32::MAX / 2 {
            u32::MAX
        } else {
            default * 2
        }
    } else {
        default
    };
    assert(usual == usual_attempts(stage@, default));
    let n = number_with_default(vars, key.as_str(), u32::MAX as u64, usual as u64);
    proof {
        lemma_number_setting_bounded(vars@, key@, u32::MAX as nat, usual as nat);
    }
    n as u32
}

proof fn lemma_number_setting_bounded(
    vars: Seq<(String, String)>,
    name: Seq<char>,
    limit: nat,
    default: nat,
)
    requires
        default <= limit,
    ensures
        number_setting(vars, name, limit, default) <= limit,
{
}

/// A service is asked for its health under the base URL under which it takes
/// requests, and is known for both or for neither.
pub proof fn law_one_base_per_service(urls: Map<Seq<char>, Seq<char>>, stage: Seq<char>)
    ensures
        endpoint(urls, stage) is Some <==> health_url(urls, stage) is Some,
        endpoint(urls, stage) is Some ==> exists|base: Seq<char>|
            endpoint(urls, stage) == Some(#[trigger] (base + stage_path(stage))) && health_url(
                urls,
                stage,
            ) == Some(base + "/healthz"@),
{
    if urls.contains_key(stage) {
        assert(endpoint(urls, stage) == Some(urls[stage] + stage_path(stage)));
    }
}

/// No setting overriding it, a GPU-bound stage is never tried less often than
/// the default limit says, and any other stage exactly as often.
pub proof fn law_gpu_stages_get_no_fewer_attempts(
    stage: Seq<char>,
    default: u32,
    vars: Seq<(String, String)>,
)
    requires
        setting_of(vars, "MAX_RETRY_"@ + raised(stage)) is None,
    ensures
        max_attempts(stage, default, vars) >= default,
        !on_gpu(stage) ==> max_attempts(stage, default, vars) == default,
        on_gpu(stage) && 2 * default <= u32::MAX ==> max_attempts(stage, default, vars) == 2
            * default,
{
}

/// Each setting places its own service, and a service that is not placed is at
/// its own port of the local machine.
pub proof fn law_every_service_has_its_own_setting(
    vars: Seq<(String, String)>,
    stage: Seq<char>,
    name: Seq<char>,
    port: Seq<char>,
)
    requires
        ({
            ||| stage == "Planning"@ && name == "PLANNER_URL"@ && port == "3191"@
            ||| stage == "Research"@ && name == "RESEARCH_URL"@ && port == "3192"@
            ||| stage == "Script"@ && name == "SCRIPT_URL"@ && port == "3193"@
            ||| stage == "Tts"@ && name == "TTS_URL"@ && port == "3194"@
            ||| stage == "AsrValidation"@ && name == "ASR_URL"@ && port == "3195"@
            ||| stage == "Captions"@ && name == "CAPTIONS_URL"@ && port == "3196"@
            ||| stage == "RenderFinal"@ && name == "RENDER_URL"@ && port == "3197"@
            ||| stage == "QaFinal"@ && name == "QA_URL"@ && port == "3198"@
        }),
    ensures
        configured_urls(vars).contains_key(stage),
        setting_of(vars, name) matches Some(url) ==> configured_urls(vars)[stage] == url,
        setting_of(vars, name) is None ==> configured_urls(vars)[stage] == "http://127.0.0.1:"@
            + port,
{
    lemma_names_differ();
    reveal_strlit("http://127.0.0.1:");
    reveal_strlit("3191");
    reveal_strlit("3192");
    reveal_strlit("3193");
    reveal_strlit("3194");
    reveal_strlit("3195");
    reveal_strlit("3196");
    reveal_strlit("3197");
    reveal_strlit("3198");
    reveal_strlit("http://127.0.0.1:3191");
    reveal_strlit("http://127.0.0.1:3192");
    reveal_strlit("http://127.0.0.1:3193");
    reveal_strlit("http://127.0.0.1:3194");
    reveal_strlit("http://127.0.0.1:3195");
    reveal_strlit("http://127.0.0.1:3196");
    reveal_strlit("http://127.0.0.1:3197");
    reveal_strlit("http://127.0.0.1:3198");
    assert("http://127.0.0.1:"@ + "3191"@ =~= "http://127.0.0.1:3191"@);
    assert("http://127.0.0.1:"@ + "3192"@ =~= "http://127.0.0.1:3192"@);
    assert("http://127.0.0.1:"@ + "3193"@ =~= "http://127.0.0.1:3193"@);
    assert("http://127.0.0.1:"@ + "3194"@ =~= "http://127.0.0.1:3194"@);
    assert("http://127.0.0.1:"@ + "3195"@ =~= "http://127.0.0.1:3195"@);
    assert("http://127.0.0.1:"@ + "3196"@ =~= "http://127.0.0.1:3196"@);
    assert("http://127.0.0.1:"@ + "3197"@ =~= "http://127.0.0.1:3197"@);
    assert("http://127.0.0.1:"@ + "3198"@ =~= "http://127.0.0.1:3198"@);
}

/// The names of the stages that have services, as texts, are distinct.
proof fn lemma_names_differ()
    ensures
        forall|i: int, j: int|
            0 <= i < mvp_names().len() && 0 <= j < mvp_names().len() && i != j ==> (#[trigger]
            mvp_names()[i]) != (#[trigger] mvp_names()[j]),
        mvp_names()[0] == "Planning"@,
        mvp_names()[1] == "Research"@,
        mvp_names()[2] == "Script"@,
        mvp_names()[3] == "Tts"@,
        mvp_names()[4] == "AsrValidation"@,
        mvp_names()[5] == "Captions"@,
        mvp_names()[6] == "RenderFinal"@,
        mvp_names()[7] == "QaFinal"@,
{
    reveal_strlit("Planning");
    reveal_strlit("Research");
    reveal_strlit("Script");
    reveal_strlit("Tts");
    reveal_strlit("AsrValidation");
    reveal_strlit("Captions");
    reveal_strlit("RenderFinal");
    reveal_strlit("QaFinal");
    assert("Planning"@.len() == 8 && "Planning"@[0] == 'P');
    assert("Research"@.len() == 8 && "Research"@[0] == 'R');
    assert("Script"@.len() == 6);
    assert("Tts"@.len() == 3);
    assert("AsrValidation"@.len() == 13);
    assert("Captions"@.len() == 8 && "Captions"@[0] == 'C');
    assert("RenderFinal"@.len() == 11);
    assert("QaFinal"@.len() == 7);
}

/// A request goes to the path of its stage below the base URL of its service,
/// and a question after its health to `/healthz` there.
pub proof fn law_requests_go_to_their_own_path(
    urls: Map<Seq<char>, Seq<char>>,
    stage: Seq<char>,
    path: Seq<char>,
)
    requires
        ({
            ||| stage == "Planning"@ && path == "/plan"@
            ||| stage == "Research"@ && path == "/research"@
            ||| stage == "Script"@ && path == "/script"@
            ||| stage == "Tts"@ && path == "/tts"@
            ||| stage == "AsrValidation"@ && path == "/validate"@
            ||| stage == "Captions"@ && path == "/captions"@
            ||| stage == "RenderFinal"@ && path == "/render"@
            ||| stage == "QaFinal"@ && path == "/qa"@
            ||| !mvp_names().contains(stage) && path == "/healthz"@
        }),
    ensures
        urls.contains_key(stage) ==> endpoint(urls, stage) == Some(urls[stage] + path),
        urls.contains_key(stage) ==> health_url(urls, stage) == Some(urls[stage] + "/healthz"@),
        !urls.contains_key(stage) ==> endpoint(urls, stage) is None && health_url(
            urls,
            stage,
        ) is None,
{
    lemma_names_differ();
}

/// Texts in upper case hold no letter from `a` to `z`, have the length of the
/// text that was raised, and differ from it in nothing but such letters, each
/// of which stands as the capital that many places into the alphabet.
pub proof fn law_raising_a_text(s: Seq<char>, i: int)
    requires
        is_ascii_chars(s),
        0 <= i < s.len(),
    ensures
        raised(s).len() == s.len(),
        !('a' <= raised(s)[i] && raised(s)[i] <= 'z'),
        !('a' <= s[i] && s[i] <= 'z') ==> raised(s)[i] == s[i],
        'a' <= s[i] && s[i] <= 'z' ==> raised(s)[i] as int - 'A' as int == s[i] as int - 'a' as int,
{
    let c = s[i];
    if 'a' <= c && c <= 'z' {
        assert((c as u32 - 32) as char as u32 == c as u32 - 32);
    }
}

/// A retry limit that is set for a stage is the limit of that stage, whatever
/// the default.
pub proof fn law_set_limits_override(
    stage: Seq<char>,
    default: u32,
    vars: Seq<(String, String)>,
    n: u32,
)
    ensures
        setting_of(vars, "MAX_RETRY_"@ + raised(stage)) == Some(decimal(n as nat)) ==> max_attempts(
            stage,
            default,
            vars,
        ) == n,
        setting_of(vars, "MAX_RETRY_"@ + raised(stage)) is None && (stage == "Tts"@ || stage
            == "AsrValidation"@ || stage == "RenderFinal"@) ==> max_attempts(stage, default, vars)
            == (if default <= u32::MAX / 2 {
            default + default
        } else {
            u32::MAX as int
        }),
        setting_of(vars, "MAX_RETRY_"@ + raised(stage)) is None && stage != "Tts"@ && stage
            != "AsrValidation"@ && stage != "RenderFinal"@ ==> max_attempts(stage, default, vars)
            == default,
{
    law_numbers_are_read_back(n as nat, u32::MAX as nat, 0);
}

/// The services are asked in the order of the pipeline.
pub proof fn law_services_are_those_of_the_pipeline(i: int)
    ensures
        mvp_names().len() == mvp_stages().len(),
        0 <= i < mvp_names().len() ==> mvp_names()[i] == mvp_stages()[i].name(),
{
}

/// What counts of an optional string is its characters, and of a registry its
/// pairs.
pub proof fn law_optional_texts(s: String, registry: ServiceRegistry)
    ensures
        text_view(Some(s)) == Some(s@),
        text_view(None) is None,
        registry@ == pairs_view(registry.urls@),
{
}

} // verus!
