//! The model registry and the PaddleOCR-VL adapter: what it runs, how its options
//! are read and checked, and how its output is cleaned.
use crate::i18n::{key_text, text};
use crate::store::{join, join_path, ModelOptionView, Settings, SettingsView};
use crate::strings::{chars_of, same_text};
use crate::table::{fenced, has_token, normalize, otsl};
use vstd::prelude::*;

verus! {

/// The id of the model that new settings use.
pub open spec fn default_model_text() -> Seq<char> {
    "paddleocr-vl-1.6"@
}

/// The id of the default model.
pub fn default_model() -> (r: String)
    ensures
        r@ == default_model_text(),
{
    "paddleocr-vl-1.6".to_string()
}

/// The files and parameters that the inference engine loads for a model.
pub struct RuntimeModel {
    pub weights: String,
    pub projector: String,
    pub template: String,
    pub alias: String,
    pub context: u32,
}

/// The PaddleOCR-VL 1.6 adapter.
pub struct Paddle;

/// The modes the adapter recognizes in.
pub open spec fn paddle_mode(mode: Seq<char>) -> bool {
    mode == "document"@ || mode == "text"@ || mode == "table"@ || mode == "formula"@ || mode
        == "comic"@
}

/// The devices the adapter runs on.
pub open spec fn paddle_device(device: Seq<char>) -> bool {
    device == "auto"@ || device == "cpu"@ || device == "vulkan"@ || device == "cuda"@
}


/// What the interface shows of a model apart from its option fields: id, name, the
/// key of its description, its modes and devices, and whether it can detect regions.
pub struct ModelInfo {
    pub id: String,
    pub name: String,
    pub description_key: String,
    pub modes: Vec<String>,
    pub devices: Vec<String>,
    pub supports_layout: bool,
}

/// The modes of the PaddleOCR-VL adapter, in the order shown.
pub open spec fn paddle_modes() -> Seq<Seq<char>> {
    seq!["document"@, "text"@, "table"@, "formula"@, "comic"@]
}

/// The devices of the PaddleOCR-VL adapter, in the order shown.
pub open spec fn paddle_devices() -> Seq<Seq<char>> {
    seq!["auto"@, "cpu"@, "vulkan"@, "cuda"@]
}

impl Paddle {
    /// The adapter's descriptor, without its option fields.
    pub fn info(&self) -> (r: ModelInfo)
        ensures
            r.id@ == default_model_text(),
            r.name@ == "PaddleOCR-VL 1.6"@,
            r.description_key@ == "paddleDescription"@,
            crate::table::texts_of(r.modes@) == paddle_modes(),
            crate::table::texts_of(r.devices@) == paddle_devices(),
            r.supports_layout,
            forall|i: int| 0 <= i < r.devices.len() ==> paddle_device(#[trigger] r.devices@[i]@),
            forall|i: int| 0 <= i < r.modes.len() ==> paddle_mode(#[trigger] r.modes@[i]@),
    {
        let mut modes: Vec<String> = Vec::new();
        modes.push("document".to_string());
        modes.push("text".to_string());
        modes.push("table".to_string());
        modes.push("formula".to_string());
        modes.push("comic".to_string());
        let mut devices: Vec<String> = Vec::new();
        devices.push("auto".to_string());
        devices.push("cpu".to_string());
        devices.push("vulkan".to_string());
        devices.push("cuda".to_string());
        assert(crate::table::texts_of(modes@) =~= paddle_modes());
        assert(crate::table::texts_of(devices@) =~= paddle_devices());
        assert forall|i: int| 0 <= i < devices.len() implies paddle_device(#[trigger] devices@[i]@) by {
            assert(devices@[i]@ == crate::table::texts_of(devices@)[i]);
        }
        assert forall|i: int| 0 <= i < modes.len() implies paddle_mode(#[trigger] modes@[i]@) by {
            assert(modes@[i]@ == crate::table::texts_of(modes@)[i]);
        }
        ModelInfo {
            id: default_model(),
            name: "PaddleOCR-VL 1.6".to_string(),
            description_key: "paddleDescription".to_string(),
            modes,
            devices,
            supports_layout: true,
        }
    }
}

/// The first option entry kept under a model id.
pub open spec fn option_for(options: Seq<ModelOptionView>, model_id: Seq<char>) -> Option<
    ModelOptionView,
>
    decreases options.len(),
{
    if options.len() == 0 {
        None
    } else if options[0].model_id == model_id {
        Some(options[0])
    } else {
        option_for(options.drop_first(), model_id)
    }
}

/// The token limit in effect: the adapter's own option, capped at `u32::MAX`, or the
/// settings' general limit when the option is absent.
pub open spec fn effective_tokens(s: SettingsView) -> u32 {
    match option_for(s.model_options, default_model_text()) {
        Some(o) => match o.max_tokens {
            Some(v) => if v > u32::MAX {
                u32::MAX
            } else {
                v as u32
            },
            None => s.max_tokens,
        },
        None => s.max_tokens,
    }
}

/// The first rule of the adapter that settings break, as a translation key.
pub open spec fn paddle_error(s: SettingsView) -> Option<Seq<char>> {
    if !paddle_mode(s.mode) {
        Some("unsupportedMode"@)
    } else if !paddle_device(s.device) {
        Some("unsupportedDevice"@)
    } else if !(512 <= effective_tokens(s) <= 16384) {
        Some("invalidTokens"@)
    } else if s.instructions.len() > 4000 {
        Some("longInstructions"@)
    } else {
        None
    }
}

/// The mode a detected region is read in: in document mode, tables and formulas
/// get their own modes and everything else is text; other modes apply as chosen.
pub open spec fn region_mode_of(selected: Seq<char>, label: Seq<char>) -> Seq<char> {
    if selected == "document"@ {
        if label == "table"@ {
            "table"@
        } else if label == "formula"@ {
            "formula"@
        } else {
            "text"@
        }
    } else {
        selected
    }
}

/// The prompt that a table of prompts by mode gives: the first entry for the mode, or
/// `OCR:` when there is none.
pub open spec fn prompt_for(prompts: Seq<(Seq<char>, Seq<char>)>, mode: Seq<char>) -> Seq<char>
    decreases prompts.len(),
{
    if prompts.len() == 0 {
        "OCR:"@
    } else if prompts[0].0 == mode {
        prompts[0].1
    } else {
        prompt_for(prompts.drop_first(), mode)
    }
}

/// The prompt for a mode is the text of the first entry registered for that mode,
/// wherever it stands in the table, and the recognition prompt begins with it.
pub proof fn lemma_prompt_is_the_entry_for_the_mode(
    prompts: Seq<(Seq<char>, Seq<char>)>,
    mode: Seq<char>,
    i: int,
    instructions: Seq<char>,
)
    requires
        0 <= i < prompts.len(),
        prompts[i].0 == mode,
        forall|j: int| 0 <= j < i ==> #[trigger] prompts[j].0 != mode,
    ensures
        prompt_for(prompts, mode) == prompts[i].1,
        crate::store::with_instructions(prompt_for(prompts, mode), instructions).take(
            prompts[i].1.len() as int,
        ) == prompts[i].1,
    decreases i,
{
    if i > 0 {
        assert(prompts[0].0 != mode);
        let rest = prompts.drop_first();
        assert forall|j: int| 0 <= j < i - 1 implies #[trigger] rest[j].0 != mode by {
            assert(rest[j] == prompts[j + 1]);
        }
        assert(rest[i - 1] == prompts[i]);
        lemma_prompt_is_the_entry_for_the_mode(rest, mode, i - 1, instructions);
    }
    let b = prompts[i].1;
    let w = crate::store::with_instructions(b, instructions);
    if crate::strings::trim(instructions).len() > 0 {
        assert(w.take(b.len() as int) =~= b);
    } else {
        assert(w.take(b.len() as int) =~= b);
    }
}

/// A mode with no entry in the table gets the generic prompt `OCR:`.
pub proof fn lemma_prompt_without_entry_is_generic(prompts: Seq<(Seq<char>, Seq<char>)>, mode: Seq<char>)
    requires
        forall|j: int| 0 <= j < prompts.len() ==> #[trigger] prompts[j].0 != mode,
    ensures
        prompt_for(prompts, mode) == "OCR:"@,
    decreases prompts.len(),
{
    if prompts.len() > 0 {
        assert(prompts[0].0 != mode);
        let rest = prompts.drop_first();
        assert forall|j: int| 0 <= j < rest.len() implies #[trigger] rest[j].0 != mode by {
            assert(rest[j] == prompts[j + 1]);
        }
        lemma_prompt_without_entry_is_generic(rest, mode);
    }
}

/// Prompts as values.
pub open spec fn prompts_view(prompts: Seq<(String, String)>) -> Seq<(Seq<char>, Seq<char>)> {
    prompts.map_values(|p: (String, String)| (p.0@, p.1@))
}

/// The message for an unknown model id.
pub open spec fn unknown_model() -> Seq<char> {
    key_text("modelUnknown"@)
}

/// The adapter for a model id.
pub fn get(id: &str) -> (r: Result<Paddle, String>)
    ensures
        id@ == default_model_text() ==> r is Ok,
        id@ != default_model_text() ==> (r matches Err(e) && e@ == unknown_model()),
{
    if same_text(id, "paddleocr-vl-1.6") {
        Ok(Paddle)
    } else {
        Err(text("modelUnknown"))
    }
}

impl Paddle {
    /// The weights and projector in the model directory, the chat template among the
    /// application's resources, the alias `ocr` and a context of 24576 tokens.
    pub fn runtime(&self, resources: &str, models: &str) -> (r: RuntimeModel)
        ensures
            r.weights@ == join_path(models@, "PaddleOCR-VL-1.6-GGUF.gguf"@),
            r.projector@ == join_path(models@, "PaddleOCR-VL-1.6-GGUF-mmproj.gguf"@),
            r.template@ == join_path(resources@, "chat-template.jinja"@),
            r.alias@ == "ocr"@,
            r.context == 24576,
    {
        RuntimeModel {
            weights: join(models, "PaddleOCR-VL-1.6-GGUF.gguf"),
            projector: join(models, "PaddleOCR-VL-1.6-GGUF-mmproj.gguf"),
            template: join(resources, "chat-template.jinja"),
            alias: "ocr".to_string(),
            context: 24576,
        }
    }

    /// The recognition prompt: the adapter's prompt for the mode, then the trimmed
    /// instructions on a line of their own.
    pub fn prompt(&self, prompts: &Vec<(String, String)>, settings: &Settings) -> (r: String)
        ensures
            r@ == crate::store::with_instructions(
                prompt_for(prompts_view(prompts@), settings@.mode),
                settings@.instructions,
            ),
    {
        let mut i: usize = 0;
        let mut base: &str = "OCR:";
        let ghost p = prompts_view(prompts@);
        assert(p.skip(0) =~= p);
        while i < prompts.len()
            invariant
                p == prompts_view(prompts@),
                i <= prompts.len(),
                prompt_for(p, settings@.mode) == prompt_for(p.skip(i as int), settings@.mode),
                base@ == "OCR:"@,
            decreases prompts.len() - i,
        {
            assert(p.skip(i as int)[0] == p[i as int]);
            assert(p.skip(i as int).drop_first() =~= p.skip(i + 1));
            if same_text(prompts[i].0.as_str(), settings.mode.as_str()) {
                return crate::store::join_instructions(prompts[i].1.as_str(), settings.instructions.as_str());
            }
            i += 1;
        }
        assert(p.skip(i as int).len() == 0);
        crate::store::join_instructions(base, settings.instructions.as_str())
    }

    /// The token limit in effect for the settings.
    pub fn max_tokens(&self, settings: &Settings) -> (r: u32)
        ensures
            r == effective_tokens(settings@),
    {
        let ghost o = settings@.model_options;
        let mut i: usize = 0;
        assert(o.skip(0) =~= o);
        while i < settings.model_options.len()
            invariant
                o == settings@.model_options,
                i <= settings.model_options.len(),
                option_for(o, default_model_text()) == option_for(o.skip(i as int), default_model_text()),
            decreases settings.model_options.len() - i,
        {
            assert(o.skip(i as int)[0] == o[i as int]);
            assert(o.skip(i as int).drop_first() =~= o.skip(i + 1));
            assert(o[i as int] == settings.model_options@[i as int]@);
            let entry = &settings.model_options[i];
            if same_text(entry.model_id.as_str(), "paddleocr-vl-1.6") {
                return match entry.max_tokens {
                    Some(v) => if v > 4294967295 {
                        4294967295
                    } else {
                        v as u32
                    },
                    None => settings.max_tokens,
                };
            }
            i += 1;
        }
        assert(o.skip(i as int).len() == 0);
        settings.max_tokens
    }

    /// Rejects a mode or device the adapter lacks, a token limit outside
    /// 512..=16384 and instructions longer than 4,000 characters, in that order.
    pub fn validate(&self, settings: &Settings) -> (r: Result<(), String>)
        ensures
            match paddle_error(settings@) {
                None => r is Ok,
                Some(k) => r matches Err(e) && e@ == key_text(k),
            },
    {
        let m = settings.mode.as_str();
        if !(same_text(m, "document") || same_text(m, "text") || same_text(m, "table") || same_text(
            m,
            "formula",
        ) || same_text(m, "comic")) {
            return Err(text("unsupportedMode"));
        }
        let d = settings.device.as_str();
        if !(same_text(d, "auto") || same_text(d, "cpu") || same_text(d, "vulkan") || same_text(
            d,
            "cuda",
        )) {
            return Err(text("unsupportedDevice"));
        }
        let tokens = self.max_tokens(settings);
        if !(512 <= tokens && tokens <= 16384) {
            return Err(text("invalidTokens"));
        }
        if chars_of(settings.instructions.as_str()).len() > 4000 {
            return Err(text("longInstructions"));
        }
        Ok(())
    }

    /// Cleans the model's output: a table answer in OTSL becomes HTML.
    pub fn normalize(&self, raw: &str, mode: &str) -> (r: (String, Option<String>))
        ensures
            mode@ == "table"@ && has_token(raw@) ==> match otsl(raw@) {
                Ok(html) => r.0@ == html && r.1 is None,
                Err(e) => r.0@ == fenced(raw@) && r.1 is Some && r.1->0@ == e,
            },
            !(mode@ == "table"@ && has_token(raw@)) ==> r.0@ == raw@ && r.1 is None,
    {
        normalize(raw, mode)
    }

    /// The mode a detected region is read in.
    pub fn region_mode(&self, selected: &str, label: &str) -> (r: String)
        ensures
            r@ == region_mode_of(selected@, label@),
    {
        if same_text(selected, "document") {
            if same_text(label, "table") {
                "table".to_string()
            } else if same_text(label, "formula") {
                "formula".to_string()
            } else {
                "text".to_string()
            }
        } else {
            selected.to_string()
        }
    }
}

} // verus!
